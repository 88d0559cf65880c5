//! The rules by which one effect moves, wears the terrain down and
//! multiplies.
//!
//! Positions and lengths are whole numbers of units, a thousand to the
//! pixel. The direction in which an effect moves is handed in as a vector
//! of length `UNIT_LENGTH`: the cosine and the sine of its heading, in
//! thousandths.

use vstd::prelude::*;
use crate::cell::Cell;
use crate::config::{MICROS_PER_SECOND, UNITS_PER_PIXEL};
use crate::effect::{turn, turned, Effect, EffectType, FULL_TURN, HALF_TURN};
use crate::materials::Material;
use crate::quadtree::{QuadTreeItem, Rect};

verus! {

/// Length of a direction vector.
pub const UNIT_LENGTH: i32 = 1000;

/// Age at which an effect ends, in milliseconds.
pub const LIFETIME: u64 = 3000;

/// Most children that all effects together may have in one step.
pub const SPAWN_CAP: usize = 10;

/// Greatest turn, in steps of heading, between a bubble and either of the
/// two it splits into.
pub const SPLIT_SPREAD: u32 = 300;

/// Greatest turn, in steps of heading, between a bursting bubble and a
/// bubble of its cluster.
pub const BURST_SPREAD: u32 = 500;

/// A demand to damage the cell `(tx, ty)`.
#[derive(Debug, Clone, Copy, PartialEq, Eq, Structural)]
pub struct DamageRequest {
    pub tx: usize,
    pub ty: usize,
    pub amount: u32,
    pub ignore_durability: bool,
}

/// `n / d` rounded towards zero.
pub open spec fn toward_zero(n: int, d: int) -> int {
    if n >= 0 {
        n / d
    } else {
        -((-n) / d)
    }
}

/// `v` brought into the range of positions.
pub open spec fn clamped(v: int) -> i64 {
    if v > i64::MAX {
        i64::MAX
    } else if v < i64::MIN {
        i64::MIN
    } else {
        v as i64
    }
}

/// How far, in units, an effect of `kind` moves along one axis in a step of
/// `dt` microseconds, where `unit` is the component of its direction vector
/// along that axis: its speed in units per second, times the time in
/// seconds, times `unit / UNIT_LENGTH`, rounded towards zero.
pub open spec fn displacement(kind: EffectType, dt: u32, unit: i32) -> int {
    toward_zero(
        kind.speed() * UNITS_PER_PIXEL * dt * unit,
        MICROS_PER_SECOND * UNIT_LENGTH,
    )
}

/// Where an effect at `position` is after one step.
pub open spec fn moved(kind: EffectType, position: (i64, i64), unit: (i32, i32), dt: u32) -> (
    i64,
    i64,
) {
    (
        clamped(position.0 + displacement(kind, dt, unit.0)),
        clamped(position.1 + displacement(kind, dt, unit.1)),
    )
}

/// The square of half-width `radius` around `position`. Where its corner
/// would lie beyond the range of positions, the corner is the position
/// nearest to it.
pub open spec fn reach(position: (i64, i64), radius: i64) -> Rect {
    Rect {
        x: clamped(position.0 - radius),
        y: clamped(position.1 - radius),
        w: clamped(2 * radius),
        h: clamped(2 * radius),
    }
}

/// Distance from `position` to `(x, y)` along the axes.
pub open spec fn manhattan(position: (i64, i64), x: i64, y: i64) -> int {
    vstd::math::abs(position.0 - x) as int + vstd::math::abs(position.1 - y) as int
}

/// The square around a position holds every point that is no further than
/// its half-width from the position along the axes: to look in the square
/// for the points in reach misses none.
pub proof fn lemma_reach_holds_what_is_near(position: (i64, i64), radius: i64, x: i64, y: i64)
    requires
        0 <= 2 * radius <= i64::MAX,
        manhattan(position, x, y) <= radius,
    ensures
        reach(position, radius).contains(x as int, y as int),
{
}

/// The effect's age at time `now`, in milliseconds: nothing before the
/// effect began.
pub open spec fn age(effect: Effect, now: u64) -> int {
    if now >= effect.started_at {
        now - effect.started_at
    } else {
        0
    }
}

/// The effect has not reached the end of its life at time `now`.
pub open spec fn alive(effect: Effect, now: u64) -> bool {
    age(effect, now) < LIFETIME
}

/// Predicate met by the effects that are alive at time `now`.
pub open spec fn alive_at(now: u64) -> spec_fn(Effect) -> bool {
    |effect: Effect| alive(effect, now)
}

fn displace(kind: EffectType, dt: u32, unit: i32) -> (by: i64)
    ensures
        by == displacement(kind, dt, unit),
{
    let per_second: i128 = kind.speed() as i128 * UNITS_PER_PIXEL as i128;
    assert(0 <= per_second * dt <= 200000 * 0x1_0000_0000) by (nonlinear_arith)
        requires
            0 <= per_second <= 200000,
            0 <= dt <= 0x1_0000_0000,
    ;
    let per_step: i128 = per_second * (dt as i128);
    assert(-200000 * 0x1_0000_0000 * 0x8000_0000 <= per_step * unit <= 200000 * 0x1_0000_0000
        * 0x8000_0000) by (nonlinear_arith)
        requires
            0 <= per_step <= 200000 * 0x1_0000_0000,
            -0x8000_0000 <= unit <= 0x8000_0000,
    ;
    let product: i128 = per_step * (unit as i128);
    let divisor: i128 = MICROS_PER_SECOND as i128 * UNIT_LENGTH as i128;
    assert(divisor == 1_000_000_000);
    let quotient: i128 = product / divisor;
    quotient as i64
}

fn clamped_sum(a: i64, b: i64) -> (sum: i64)
    ensures
        sum == clamped(a + b),
{
    match a.checked_add(b) {
        Some(sum) => sum,
        None => if b > 0 {
            i64::MAX
        } else {
            i64::MIN
        },
    }
}

/// Moves an effect of `kind` at `position` by one step of `dt` microseconds
/// in the direction `unit`. A position that would leave the range of
/// positions stops at its end.
pub fn advance(kind: EffectType, position: (i64, i64), unit: (i32, i32), dt: u32) -> (at: (
    i64,
    i64,
))
    ensures
        at == moved(kind, position, unit, dt),
{
    (
        clamped_sum(position.0, displace(kind, dt, unit.0)),
        clamped_sum(position.1, displace(kind, dt, unit.1)),
    )
}

/// The square of half-width `radius` around `position`.
pub fn reach_of(position: (i64, i64), radius: i64) -> (square: Rect)
    ensures
        square == reach(position, radius),
{
    let x = match position.0.checked_sub(radius) {
        Some(x) => x,
        None => if radius > 0 {
            i64::MIN
        } else {
            i64::MAX
        },
    };
    let y = match position.1.checked_sub(radius) {
        Some(y) => y,
        None => if radius > 0 {
            i64::MIN
        } else {
            i64::MAX
        },
    };
    let edge = match radius.checked_mul(2) {
        Some(edge) => edge,
        None => if radius > 0 {
            i64::MAX
        } else {
            i64::MIN
        },
    };
    Rect::new(x, y, edge, edge)
}

/// Whether `(x, y)` is no further than `radius` from `position`, measured
/// along the axes.
pub fn in_reach(position: (i64, i64), x: i64, y: i64, radius: i64) -> (near: bool)
    ensures
        near == (manhattan(position, x, y) <= radius),
{
    let dx: i128 = if position.0 >= x {
        position.0 as i128 - x as i128
    } else {
        x as i128 - position.0 as i128
    };
    let dy: i128 = if position.1 >= y {
        position.1 as i128 - y as i128
    } else {
        y as i128 - position.1 as i128
    };
    dx + dy <= radius as i128
}

/// Whether the effect is younger than `LIFETIME` at time `now`.
pub fn is_alive(effect: &Effect, now: u64) -> (yes: bool)
    ensures
        yes == alive(*effect, now),
{
    if now >= effect.started_at {
        now - effect.started_at < LIFETIME
    } else {
        true
    }
}

/// The cell at `(tx, ty)` of a grid of columns.
pub open spec fn cell_at(grid: Seq<Seq<Cell>>, tx: int, ty: int) -> Cell {
    grid[tx][ty]
}

/// `(tx, ty)` names a cell of the grid.
pub open spec fn in_grid(grid: Seq<Seq<Cell>>, tx: int, ty: int) -> bool {
    0 <= tx < grid.len() && 0 <= ty < grid[tx].len()
}

/// The grid that a vector of columns holds.
pub open spec fn grid_of(terrain: Seq<Vec<Cell>>) -> Seq<Seq<Cell>> {
    Seq::new(terrain.len(), |x: int| terrain[x]@)
}

/// An effect at `position` wears down the cell that `candidate` stands for:
/// the point is in reach and its cell is a cell of the grid that is not
/// empty.
pub open spec fn struck(
    grid: Seq<Seq<Cell>>,
    position: (i64, i64),
    radius: i64,
    candidate: QuadTreeItem,
) -> bool {
    &&& manhattan(position, candidate.x, candidate.y) <= radius
    &&& in_grid(grid, candidate.tx as int, candidate.ty as int)
    &&& cell_at(grid, candidate.tx as int, candidate.ty as int).material != Material::Air
}

/// The cell would still stand after a hit by an effect of `kind`.
pub open spec fn withstands(cell: Cell, kind: EffectType) -> bool {
    !kind.ignores_durability() && cell.durability > kind.damage()
}

/// The demand that an effect of `kind` makes on the cell of `candidate`.
pub open spec fn request_for(kind: EffectType, candidate: QuadTreeItem) -> DamageRequest {
    DamageRequest {
        tx: candidate.tx,
        ty: candidate.ty,
        amount: kind.damage(),
        ignore_durability: kind.ignores_durability(),
    }
}

/// What an effect has found among the candidates it has looked at.
pub struct Scan {
    /// The demands made so far, in the order of the candidates.
    pub requests: Seq<DamageRequest>,
    /// The effect has met a cell that withstands it, and looks no further.
    pub blocked: bool,
}

/// What an effect of `kind` at `position` finds among the first `n`
/// candidates. It makes a demand on every cell it wears down, up to and
/// including the first that withstands it; there it stops.
pub open spec fn scanned(
    grid: Seq<Seq<Cell>>,
    candidates: Seq<QuadTreeItem>,
    position: (i64, i64),
    radius: i64,
    kind: EffectType,
    n: int,
) -> Scan
    decreases n,
{
    if n <= 0 {
        Scan { requests: Seq::empty(), blocked: false }
    } else {
        let before = scanned(grid, candidates, position, radius, kind, n - 1);
        let candidate = candidates[n - 1];
        if before.blocked || !struck(grid, position, radius, candidate) {
            before
        } else {
            Scan {
                requests: before.requests.push(request_for(kind, candidate)),
                blocked: withstands(
                    cell_at(grid, candidate.tx as int, candidate.ty as int),
                    kind,
                ),
            }
        }
    }
}

/// Once an effect is blocked, further candidates change nothing.
pub proof fn lemma_blocked_scan_stays(
    grid: Seq<Seq<Cell>>,
    candidates: Seq<QuadTreeItem>,
    position: (i64, i64),
    radius: i64,
    kind: EffectType,
    n: int,
    m: int,
)
    requires
        0 <= n <= m,
        scanned(grid, candidates, position, radius, kind, n).blocked,
    ensures
        scanned(grid, candidates, position, radius, kind, m) == scanned(
            grid,
            candidates,
            position,
            radius,
            kind,
            n,
        ),
    decreases m - n,
{
    if n < m {
        lemma_blocked_scan_stays(grid, candidates, position, radius, kind, n, m - 1);
    }
}

/// Looks through the candidates in order for cells that an effect of `kind`
/// at `position` wears down. Returns the demands it makes and whether a
/// cell that withstands the effect has stopped it.
pub fn scan_candidates(
    terrain: &Vec<Vec<Cell>>,
    candidates: &Vec<QuadTreeItem>,
    position: (i64, i64),
    radius: i64,
    kind: EffectType,
) -> (found: (Vec<DamageRequest>, bool))
    ensures
        found.0@ == scanned(
            grid_of(terrain@),
            candidates@,
            position,
            radius,
            kind,
            candidates@.len() as int,
        ).requests,
        found.1 == scanned(
            grid_of(terrain@),
            candidates@,
            position,
            radius,
            kind,
            candidates@.len() as int,
        ).blocked,
{
    let ghost grid = grid_of(terrain@);
    let mut requests: Vec<DamageRequest> = Vec::new();
    let mut blocked = false;
    let mut i: usize = 0;
    while i < candidates.len() && !blocked
        invariant
            i <= candidates@.len(),
            grid == grid_of(terrain@),
            requests@ == scanned(grid, candidates@, position, radius, kind, i as int).requests,
            blocked == scanned(grid, candidates@, position, radius, kind, i as int).blocked,
        decreases candidates@.len() - i,
    {
        let candidate = candidates[i];
        if in_reach(position, candidate.x, candidate.y, radius) && candidate.tx < terrain.len()
            && candidate.ty < terrain[candidate.tx].len() {
            let cell = terrain[candidate.tx][candidate.ty];
            if cell.material != Material::Air {
                requests.push(
                    DamageRequest {
                        tx: candidate.tx,
                        ty: candidate.ty,
                        amount: kind.damage(),
                        ignore_durability: kind.ignores_durability(),
                    },
                );
                if !kind.ignores_durability() && cell.durability > kind.damage() {
                    blocked = true;
                }
            }
        }
        i += 1;
    }
    proof {
        if blocked {
            lemma_blocked_scan_stays(
                grid,
                candidates@,
                position,
                radius,
                kind,
                i as int,
                candidates@.len() as int,
            );
        }
    }
    (requests, blocked)
}

/// The heading of an effect that a cell has thrown back: `heading` turned
/// by half a turn and by a further `draw % FULL_TURN - HALF_TURN` steps,
/// which is less than half a turn either way.
pub open spec fn deflected(heading: int, draw: u32) -> int {
    turned(heading, HALF_TURN + (draw % FULL_TURN - HALF_TURN))
}

/// Throws back an effect that a cell has withstood.
pub fn deflect(heading: u32, draw: u32) -> (out: u32)
    ensures
        out == deflected(heading as int, draw),
        out < FULL_TURN,
{
    turn(heading, draw % FULL_TURN, 0)
}

/// The turn, in steps of heading, that draw number `k` of `offsets` gives a
/// child: the draw brought into `-spread..spread`, and no turn where there
/// is no such draw.
pub open spec fn offset_at(offsets: Seq<u32>, k: int, spread: u32) -> int {
    if 0 <= k < offsets.len() {
        offsets[k] % (2 * spread) as u32 - spread
    } else {
        0
    }
}

/// A child of `parent` with the given heading, born at time `now` where its
/// parent is. A child has no children of its own.
pub open spec fn child_of(parent: Effect, heading: int, now: u64) -> Effect {
    Effect {
        effect_type: parent.effect_type,
        position: parent.position,
        direction: heading as u32,
        started_at: now,
        spawned: true,
    }
}

/// The two bubbles that `parent` splits into: one turned by the first
/// offset, the other turned as far the other way.
pub open spec fn split_children(parent: Effect, offsets: Seq<u32>, now: u64) -> Seq<Effect> {
    let offset = offset_at(offsets, 0, SPLIT_SPREAD);
    seq![
        child_of(parent, turned(parent.direction as int, offset), now),
        child_of(parent, turned(parent.direction as int, -offset), now),
    ]
}

/// The first `n` bubbles of the cluster that `parent` bursts into, each
/// turned by an offset of its own.
pub open spec fn burst_children(parent: Effect, offsets: Seq<u32>, now: u64, n: int) -> Seq<
    Effect,
> {
    Seq::new(
        n as nat,
        |k: int|
            child_of(
                parent,
                turned(parent.direction as int, offset_at(offsets, k, BURST_SPREAD)),
                now,
            ),
    )
}

/// The children that `parent` has in a step in which `already` children
/// have been born before. A parent that has had its children, or whose roll
/// has failed, has none, and a bolt never has any. A bubble splits in two
/// if the cap leaves room for both. A bursting bubble has as many children
/// as the cap leaves room for.
pub open spec fn offspring(
    parent: Effect,
    roll: bool,
    offsets: Seq<u32>,
    now: u64,
    already: int,
) -> Seq<Effect> {
    if parent.spawned || !roll {
        Seq::empty()
    } else {
        match parent.effect_type {
            EffectType::Bubbles => if already + 2 <= SPAWN_CAP {
                split_children(parent, offsets, now)
            } else {
                Seq::empty()
            },
            EffectType::MoreBubbles => if already < SPAWN_CAP {
                burst_children(parent, offsets, now, SPAWN_CAP - already)
            } else {
                Seq::empty()
            },
            EffectType::Lightning => Seq::empty(),
        }
    }
}

/// Whether `parent` has had its children once its roll is known: it had
/// them before, or it is a bubble of either kind whose roll has succeeded,
/// whether or not the cap has left room for children.
pub open spec fn spawned_after(parent: Effect, roll: bool) -> bool {
    parent.spawned || (roll && parent.effect_type != EffectType::Lightning)
}

fn offset_from(offsets: &Vec<u32>, k: usize, spread: u32) -> (draw: u32)
    requires
        0 < spread <= 1000,
    ensures
        draw < 2 * spread,
        draw - spread == offset_at(offsets@, k as int, spread),
{
    if k < offsets.len() {
        offsets[k] % (2 * spread)
    } else {
        spread
    }
}

/// Gives `parent` its children, if it is to have any, and marks a parent
/// whose roll has succeeded as having had them.
pub fn spawn_children(
    parent: &mut Effect,
    roll: bool,
    offsets: &Vec<u32>,
    now: u64,
    already: usize,
) -> (children: Vec<Effect>)
    ensures
        children@ == offspring(*old(parent), roll, offsets@, now, already as int),
        already <= SPAWN_CAP ==> already + children@.len() <= SPAWN_CAP,
        *final(parent) == (Effect { spawned: spawned_after(*old(parent), roll), ..*old(parent) }),
{
    let mut children: Vec<Effect> = Vec::new();
    if parent.spawned || !roll {
        return children;
    }
    match parent.effect_type {
        EffectType::Bubbles => {
            if already <= SPAWN_CAP - 2 {
                let draw = offset_from(offsets, 0, SPLIT_SPREAD);
                children.push(
                    Effect {
                        effect_type: parent.effect_type,
                        position: parent.position,
                        direction: turn(parent.direction, draw, SPLIT_SPREAD),
                        started_at: now,
                        spawned: true,
                    },
                );
                children.push(
                    Effect {
                        effect_type: parent.effect_type,
                        position: parent.position,
                        direction: turn(parent.direction, SPLIT_SPREAD, draw),
                        started_at: now,
                        spawned: true,
                    },
                );
            }
            parent.spawned = true;
        },
        EffectType::MoreBubbles => {
            let mut k: usize = 0;
            while already < SPAWN_CAP && k < SPAWN_CAP - already
                invariant
                    *parent == *old(parent),
                    already < SPAWN_CAP ==> k <= SPAWN_CAP - already,
                    already >= SPAWN_CAP ==> k == 0,
                    children@ == burst_children(*parent, offsets@, now, k as int),
                decreases SPAWN_CAP - k,
            {
                let draw = offset_from(offsets, k, BURST_SPREAD);
                children.push(
                    Effect {
                        effect_type: parent.effect_type,
                        position: parent.position,
                        direction: turn(parent.direction, draw, BURST_SPREAD),
                        started_at: now,
                        spawned: true,
                    },
                );
                k += 1;
            }
            parent.spawned = true;
        },
        EffectType::Lightning => {},
    }
    children
}

} // verus!
