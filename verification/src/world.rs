//! The simulation as plain values: what a state holds, and what damage and
//! a step of the simulation make of it.

use vstd::prelude::*;
use crate::cell::Cell;
use crate::config::{Config, MAX_EXTENT, UNSET_SEED};
use crate::effect::{Effect, EffectType, FULL_TURN};
use crate::materials::Material;
use crate::noisegenerator::NoiseGenerator;
use crate::quadtree::{in_range, lemma_inserted, lemma_leaf, within, QuadTreeItem, Rect, Shape};
use crate::sequences::{lemma_filter_keeps_all, lemma_insert_contains, lemma_insert_no_duplicates};
use crate::simulation::{
    age, alive, alive_at, cell_at, deflected, in_grid, moved, offspring, reach, scanned,
    spawned_after, DamageRequest, BURST_SPREAD, LIFETIME, SPAWN_CAP, SPLIT_SPREAD,
};

verus! {

/// Time for which the introduction is shown, in milliseconds.
pub const INTRO_TIME: u64 = 3000;

/// Points that a node of the index of a new state holds before it splits.
pub const INITIAL_CAPACITY: usize = 4;

/// Points that a node of a rebuilt index holds before it splits.
pub const REBUILD_CAPACITY: usize = 8;

/// Noise samples, in thousandths, below this value give empty cells.
pub const LOW_THRESHOLD: i32 = -200;

/// Noise samples, in thousandths, from this value on give rock.
pub const HIGH_THRESHOLD: i32 = 200;

/// Durability of fresh grass.
pub const GRASS_DURABILITY: u32 = 1;

/// Durability of fresh rock.
pub const ROCK_DURABILITY: u32 = 8;

/// Seeds drawn at random are below this value.
pub const SEED_RANGE: u32 = 100000;

/// A sound that the presentation is asked to play.
#[derive(Debug, Clone, Copy, PartialEq, Eq, Structural)]
pub enum SoundCue {
    /// An effect has met a wall of the arena.
    Boing,
    /// An effect has met a wall of the arena, the other way.
    BoingCasseur,
    /// Grass has crumbled.
    Grass,
    /// Rock has crumbled.
    Stone,
    /// A button has been pressed.
    ButtonClick,
}

/// The random draws that one effect may need in one step.
#[derive(Debug, Clone, PartialEq, Eq)]
pub struct Chance {
    /// Picks the sound of meeting a wall: `Boing` for an even number.
    pub bounce_pick: u32,
    /// Turns an effect that a cell throws back.
    pub deflection: u32,
    /// Whether an effect that can have children has them now.
    pub spawn_roll: bool,
    /// Turn the children away from their parent, one draw for each child.
    pub offsets: Vec<u32>,
}

impl Chance {
    /// What holds of the draws made for `effect`, however they fall. The
    /// pick of a sound is one of two and the turn of a deflection lies
    /// within the full turn. Only an effect that has not had its children
    /// and is not a bolt can roll a success. There is no offset without a
    /// success, one offset for a bubble that splits and one for each child
    /// that the cap allows for a bubble that bursts, and every offset lies
    /// within twice the spread of its kind.
    pub open spec fn drawn_for(self, effect: Effect) -> bool {
        &&& self.bounce_pick < 2
        &&& self.deflection < FULL_TURN
        &&& self.spawn_roll ==> !effect.spawned && effect.effect_type != EffectType::Lightning
        &&& self.offsets@.len() == if !self.spawn_roll {
            0nat
        } else if effect.effect_type == EffectType::Bubbles {
            1nat
        } else {
            SPAWN_CAP as nat
        }
        &&& forall|k: int|
            0 <= k < self.offsets@.len() ==> #[trigger] self.offsets@[k] < 2 * if effect.effect_type
                == EffectType::Bubbles {
                SPLIT_SPREAD
            } else {
                BURST_SPREAD
            }
    }
}

/// One effect after one step, and what it leaves behind.
pub struct Step {
    /// The effect after the step.
    pub effect: Effect,
    /// The damage it demands, in the order in which it met the cells.
    pub requests: Seq<DamageRequest>,
    /// Its children.
    pub children: Seq<Effect>,
    /// The sound of its meeting a wall.
    pub cue: Option<SoundCue>,
}

/// What the effects leave behind in one step.
pub struct Tick {
    /// The effects after the step, children not included.
    pub effects: Seq<Effect>,
    /// The damage they demand, effect by effect.
    pub requests: Seq<DamageRequest>,
    /// Their children, parent by parent.
    pub children: Seq<Effect>,
    /// The sounds of their meeting walls.
    pub cues: Seq<SoundCue>,
}

/// The sound of meeting a wall that `pick` selects.
pub open spec fn boing(pick: u32) -> SoundCue {
    if pick % 2 == 0 {
        SoundCue::Boing
    } else {
        SoundCue::BoingCasseur
    }
}

/// A new effect of `kind` at `(x, y)`.
pub open spec fn fresh_effect(kind: EffectType, x: i64, y: i64, heading: int, now: u64) -> Effect {
    Effect {
        effect_type: kind,
        position: (x, y),
        direction: heading as u32,
        started_at: now,
        spawned: false,
    }
}

/// The cell that a noise sample, in thousandths, stands for: empty below
/// the low threshold, rock from the high threshold on, grass in between.
pub open spec fn classified(sample: i32) -> Cell {
    if sample < LOW_THRESHOLD {
        Cell::air()
    } else if sample < HIGH_THRESHOLD {
        Cell { material: Material::Grass, durability: GRASS_DURABILITY }
    } else {
        Cell { material: Material::Rock, durability: ROCK_DURABILITY }
    }
}

/// The terrain that `samples` stands for, one noise sample in thousandths
/// for each cell of a grid of the configured size.
pub open spec fn generated(config: Config, samples: Seq<Vec<i32>>) -> Seq<Seq<Cell>> {
    Seq::new(
        config.terrain_width as nat,
        |x: int| Seq::new(config.terrain_height as nat, |y: int| classified(samples[x]@[y])),
    )
}

/// The terrain of the configured size without a cell that is not empty.
pub open spec fn blank(config: Config) -> Seq<Seq<Cell>> {
    Seq::new(
        config.terrain_width as nat,
        |x: int| Seq::new(config.terrain_height as nat, |y: int| Cell::air()),
    )
}

/// The cell that a noise sample, in thousandths, stands for.
pub fn classify(sample: i32) -> (cell: Cell)
    ensures
        cell == classified(sample),
        cell.wf(),
{
    if sample < LOW_THRESHOLD {
        Cell { material: Material::Air, durability: 0 }
    } else if sample < HIGH_THRESHOLD {
        Cell { material: Material::Grass, durability: GRASS_DURABILITY }
    } else {
        Cell { material: Material::Rock, durability: ROCK_DURABILITY }
    }
}

/// The seed of an explicit configuration, as the noise sources take it: its
/// low 32 bits.
pub open spec fn low_bits(seed: i64) -> u32 {
    seed as u32
}

/// The seed that terrain is generated from: the configured one, unless that
/// is `UNSET_SEED`, in which case it is the one drawn.
pub open spec fn chosen_seed(configured: i64, drawn: u32) -> u32 {
    if configured == UNSET_SEED {
        drawn
    } else {
        low_bits(configured)
    }
}

/// The point that stands in the index for the cell `(tx, ty)`: the centre
/// of the cell, with the cell's place in the grid.
pub open spec fn anchor(config: Config, tx: int, ty: int) -> QuadTreeItem {
    QuadTreeItem {
        x: (tx * config.cell_size + config.cell_size / 2) as i64,
        y: (ty * config.cell_size + config.cell_size / 2) as i64,
        tx: tx as usize,
        ty: ty as usize,
    }
}

/// `p` is the anchor of a cell of the grid.
pub open spec fn is_anchor(config: Config, p: QuadTreeItem) -> bool {
    &&& p.tx < config.terrain_width
    &&& p.ty < config.terrain_height
    &&& p == anchor(config, p.tx as int, p.ty as int)
}

/// `p` is the anchor of a cell of the grid that is not empty.
pub open spec fn is_solid_anchor(config: Config, grid: Seq<Seq<Cell>>, p: QuadTreeItem) -> bool {
    &&& is_anchor(config, p)
    &&& cell_at(grid, p.tx as int, p.ty as int).material != Material::Air
}

/// The rectangle that the terrain covers.
pub open spec fn arena(config: Config) -> Rect {
    Rect { x: 0, y: 0, w: config.screen_width, h: config.screen_height }
}

/// The grid has the configured number of columns and rows.
pub open spec fn shaped(grid: Seq<Seq<Cell>>, config: Config) -> bool {
    &&& grid.len() == config.terrain_width
    &&& forall|x: int| 0 <= x < grid.len() ==> (#[trigger] grid[x]).len() == config.terrain_height
}

/// Every cell of the grid is well-formed.
pub open spec fn sound(grid: Seq<Seq<Cell>>) -> bool {
    forall|x: int, y: int| in_grid(grid, x, y) ==> (#[trigger] cell_at(grid, x, y)).wf()
}

/// A hit of `amount` points destroys the cell.
pub open spec fn crumbles(cell: Cell, amount: u32, ignore_durability: bool) -> bool {
    cell.material != Material::Air && (ignore_durability || cell.durability <= amount)
}

/// The sound of `material` crumbling.
pub open spec fn crumble_cue(material: Material) -> SoundCue {
    if material == Material::Rock {
        SoundCue::Stone
    } else {
        SoundCue::Grass
    }
}

/// The tree after the anchors of the cells that are not empty among the
/// first `rows` cells of column `tx` have been inserted into `tree`, one
/// after the other.
pub open spec fn indexed_cells(
    config: Config,
    grid: Seq<Seq<Cell>>,
    tree: Shape,
    tx: int,
    rows: int,
) -> Shape
    decreases rows,
{
    if rows <= 0 {
        tree
    } else {
        let before = indexed_cells(config, grid, tree, tx, rows - 1);
        if cell_at(grid, tx, rows - 1).material != Material::Air {
            before.inserted(anchor(config, tx, rows - 1))
        } else {
            before
        }
    }
}

/// The tree after the anchors of the cells that are not empty in the first
/// `columns` columns have been inserted into the empty tree over the arena,
/// column after column.
pub open spec fn indexed_columns(config: Config, grid: Seq<Seq<Cell>>, columns: int) -> Shape
    decreases columns,
{
    if columns <= 0 {
        Shape::leaf(arena(config), REBUILD_CAPACITY as nat)
    } else {
        indexed_cells(
            config,
            grid,
            indexed_columns(config, grid, columns - 1),
            columns - 1,
            config.terrain_height as int,
        )
    }
}

/// The index built anew from the terrain: the empty tree over the arena
/// after the anchors of all cells that are not empty have been inserted
/// into it, column after column and row after row.
pub open spec fn rebuilt(config: Config, grid: Seq<Seq<Cell>>) -> Shape {
    indexed_columns(config, grid, config.terrain_width as int)
}

/// The cell `(p.tx, p.ty)` comes before the cell `(tx, ty)` when the grid is
/// gone through column after column and row after row.
pub open spec fn earlier(p: QuadTreeItem, tx: int, ty: int) -> bool {
    p.tx < tx || (p.tx == tx && p.ty < ty)
}

/// What a simulation state holds, as plain values.
pub struct World {
    /// The configuration that the state was made from.
    pub config: Config,
    /// The terrain: `grid[x][y]` is the cell in column `x` and row `y`.
    pub grid: Seq<Seq<Cell>>,
    /// The spatial index.
    pub tree: Shape,
    /// The index may no longer match the terrain.
    pub dirty: bool,
    /// The effects, oldest first.
    pub effects: Seq<Effect>,
    /// The kind of effect that a click creates.
    pub selected: EffectType,
    /// The sounds asked for and not yet taken.
    pub sounds: Seq<SoundCue>,
    /// Time for which the introduction still shows, in milliseconds.
    pub intro_timer: u64,
    /// The introduction is showing.
    pub show_intro: bool,
    /// The configured seed.
    pub seed: i64,
    /// The noise sources.
    pub noise: NoiseGenerator,
}

impl World {
    /// The world of a new state: empty terrain under an empty index, no
    /// effects, bubbles selected, nothing to play, the introduction
    /// showing, and the noise sources built from the configured seed.
    pub open spec fn initial(config: Config) -> World {
        World {
            config,
            grid: blank(config),
            tree: Shape::leaf(arena(config), INITIAL_CAPACITY as nat),
            dirty: false,
            effects: Seq::empty(),
            selected: EffectType::Bubbles,
            sounds: Seq::empty(),
            intro_timer: INTRO_TIME,
            show_intro: true,
            seed: config.seed,
            noise: NoiseGenerator::fresh(config.noise_type, low_bits(config.seed)),
        }
    }

    /// The points of the index, in the order in which a query visits them.
    pub open spec fn index(self) -> Seq<QuadTreeItem> {
        self.tree.contents()
    }

    /// The index matches the terrain: it holds the anchors of the cells
    /// that are not empty, and nothing else.
    pub open spec fn index_is_exact(self) -> bool {
        forall|p: QuadTreeItem|
            #![trigger self.index().contains(p)]
            #![trigger is_solid_anchor(self.config, self.grid, p)]
            self.index().contains(p) <==> is_solid_anchor(self.config, self.grid, p)
    }

    /// The invariant of a state. The grid has the configured shape and
    /// every cell of it is well-formed; the index is a well-formed tree
    /// over the arena that holds anchors of cells of the grid, each at most
    /// once; and unless the state is marked dirty, the index matches the
    /// terrain.
    pub open spec fn wf(self) -> bool {
        &&& self.config.wf()
        &&& shaped(self.grid, self.config)
        &&& sound(self.grid)
        &&& self.tree.wf()
        &&& self.tree.boundary == arena(self.config)
        &&& forall|i: int|
            0 <= i < self.index().len() ==> is_anchor(self.config, #[trigger] self.index()[i])
        &&& self.index().no_duplicates()
        &&& !self.dirty ==> self.index_is_exact()
    }

    /// The world with its index built anew from the terrain, and marked
    /// clean.
    pub open spec fn refreshed(self) -> World {
        World { tree: rebuilt(self.config, self.grid), dirty: false, ..self }
    }

    /// The world as a step of the simulation finds it: with its index built
    /// anew if it was marked dirty, and as it is otherwise.
    pub open spec fn caught_up(self) -> World {
        if self.dirty {
            self.refreshed()
        } else {
            self
        }
    }

    /// The world after a hit of `amount` points on the cell `(x, y)`, where
    /// `roll` says whether a cell that crumbles is to be heard. A hit
    /// outside the grid or on an empty cell changes nothing. Any other hit
    /// damages the cell, and marks the world dirty if the cell is empty
    /// afterwards.
    pub open spec fn damaged_at(
        self,
        x: int,
        y: int,
        amount: u32,
        ignore_durability: bool,
        roll: bool,
    ) -> World {
        if !in_grid(self.grid, x, y) || cell_at(self.grid, x, y).material == Material::Air {
            self
        } else {
            let cell = cell_at(self.grid, x, y);
            let after = cell.damaged(amount, ignore_durability);
            World {
                grid: self.grid.update(x, self.grid[x].update(y, after)),
                dirty: self.dirty || after.material == Material::Air,
                sounds: if crumbles(cell, amount, ignore_durability) && roll {
                    self.sounds.push(crumble_cue(cell.material))
                } else {
                    self.sounds
                },
                ..self
            }
        }
    }

    /// What becomes of `effect` in one step of `dt` microseconds at time
    /// `now`, in which `already` children have been born before. The effect
    /// moves along `unit`; where that takes it onto or beyond a wall, the
    /// wall is heard and turns it back. It then makes its demands on the
    /// indexed cells within one cell size of it, is thrown back by the first
    /// that withstands it, and last has its children.
    pub open spec fn stepped(
        self,
        effect: Effect,
        unit: (i32, i32),
        dt: u32,
        now: u64,
        already: int,
        chance: Chance,
    ) -> Step {
        let kind = effect.effect_type;
        let at = moved(kind, effect.position, unit, dt);
        let arrived = Effect { position: at, ..effect };
        let width = self.config.screen_width;
        let height = self.config.screen_height;
        let radius = self.config.cell_size;
        let candidates = within(self.index(), reach(at, radius));
        let scan = scanned(self.grid, candidates, at, radius, kind, candidates.len() as int);
        let bounced = arrived.bounced_heading(width, height);
        let heading = if scan.blocked {
            deflected(bounced, chance.deflection)
        } else {
            bounced
        };
        let parent = Effect { direction: heading as u32, ..arrived };
        Step {
            effect: Effect { spawned: spawned_after(parent, chance.spawn_roll), ..parent },
            requests: scan.requests,
            children: offspring(parent, chance.spawn_roll, chance.offsets@, now, already),
            cue: if arrived.beyond_x(width) || arrived.beyond_y(height) {
                Some(boing(chance.bounce_pick))
            } else {
                None
            },
        }
    }

    /// `chances` are draws made for the effects of the world as they are,
    /// one for each effect and in their order.
    pub open spec fn drew(self, chances: Seq<Chance>) -> bool {
        &&& chances.len() == self.effects.len()
        &&& forall|i: int|
            0 <= i < chances.len() ==> (#[trigger] chances[i]).drawn_for(self.effects[i])
    }

    /// What the first `n` effects leave behind in one step, each with its
    /// own direction and its own draws: every effect takes its step in
    /// turn, with the world as it was when the step began.
    pub open spec fn ticked(
        self,
        units: Seq<(i32, i32)>,
        chances: Seq<Chance>,
        dt: u32,
        now: u64,
        n: int,
    ) -> Tick
        decreases n,
    {
        if n <= 0 {
            Tick {
                effects: Seq::empty(),
                requests: Seq::empty(),
                children: Seq::empty(),
                cues: Seq::empty(),
            }
        } else {
            let before = self.ticked(units, chances, dt, now, n - 1);
            let step = self.stepped(
                self.effects[n - 1],
                units[n - 1],
                dt,
                now,
                before.children.len() as int,
                chances[n - 1],
            );
            Tick {
                effects: before.effects.push(step.effect),
                requests: before.requests + step.requests,
                children: before.children + step.children,
                cues: match step.cue {
                    Some(cue) => before.cues.push(cue),
                    None => before.cues,
                },
            }
        }
    }

    /// The world after the first `n` of `requests` have been met in order,
    /// where `rolls[k]` says whether the cell of request `k` is to be heard
    /// if it crumbles.
    pub open spec fn battered(self, requests: Seq<DamageRequest>, rolls: Seq<bool>, n: int) -> World
        decreases n,
    {
        if n <= 0 {
            self
        } else {
            let request = requests[n - 1];
            self.battered(requests, rolls, n - 1).damaged_at(
                request.tx as int,
                request.ty as int,
                request.amount,
                request.ignore_durability,
                rolls[n - 1],
            )
        }
    }

    /// The world after one step of `dt` microseconds at time `now`, for a
    /// world whose index is up to date. All effects take their step; the
    /// damage they demand is done, demand by demand; the children join the
    /// effects; and the effects that have reached the end of their life
    /// leave. The sounds of crumbling come before those of the walls.
    pub open spec fn after_tick(
        self,
        units: Seq<(i32, i32)>,
        chances: Seq<Chance>,
        rolls: Seq<bool>,
        dt: u32,
        now: u64,
    ) -> World {
        let tick = self.ticked(units, chances, dt, now, self.effects.len() as int);
        let hit = self.battered(tick.requests, rolls, tick.requests.len() as int);
        World {
            effects: (tick.effects + tick.children).filter(alive_at(now)),
            sounds: hit.sounds + tick.cues,
            ..hit
        }
    }
}

/// The anchor of a cell of the grid lies in the arena, and its coordinates
/// are those that the cell's place in the grid gives.
pub proof fn lemma_anchor_in_arena(config: Config, tx: int, ty: int)
    requires
        config.wf(),
        0 <= tx < config.terrain_width,
        0 <= ty < config.terrain_height,
    ensures
        tx <= MAX_EXTENT,
        ty <= MAX_EXTENT,
        0 <= tx * config.cell_size,
        0 <= ty * config.cell_size,
        tx * config.cell_size + config.cell_size / 2 <= config.screen_width,
        ty * config.cell_size + config.cell_size / 2 <= config.screen_height,
        is_anchor(config, anchor(config, tx, ty)),
        arena(config).contains(anchor(config, tx, ty).x as int, anchor(config, tx, ty).y as int),
{
    let c = config.cell_size as int;
    assert(0 <= tx * c && (tx + 1) * c <= config.terrain_width * c && (tx + 1) * c == tx * c + c
        && tx <= tx * c) by (nonlinear_arith)
        requires
            0 <= tx < config.terrain_width,
            1 <= c,
    ;
    assert(0 <= ty * c && (ty + 1) * c <= config.terrain_height * c && (ty + 1) * c == ty * c + c
        && ty <= ty * c) by (nonlinear_arith)
        requires
            0 <= ty < config.terrain_height,
            1 <= c,
    ;
}

/// What the first `n` effects leave behind depends on the draws of those
/// effects only.
pub proof fn lemma_ticked_draws(
    world: World,
    units: Seq<(i32, i32)>,
    chances: Seq<Chance>,
    others: Seq<Chance>,
    dt: u32,
    now: u64,
    n: int,
)
    requires
        n <= chances.len(),
        n <= others.len(),
        forall|i: int| 0 <= i < n ==> chances[i] == others[i],
    ensures
        world.ticked(units, chances, dt, now, n) == world.ticked(units, others, dt, now, n),
    decreases n,
{
    if n > 0 {
        lemma_ticked_draws(world, units, chances, others, dt, now, n - 1);
    }
}

/// What the first `n` requests do depends on the rolls of those requests
/// only.
pub proof fn lemma_battered_rolls(
    world: World,
    requests: Seq<DamageRequest>,
    rolls: Seq<bool>,
    others: Seq<bool>,
    n: int,
)
    requires
        n <= rolls.len(),
        n <= others.len(),
        forall|i: int| 0 <= i < n ==> rolls[i] == others[i],
    ensures
        world.battered(requests, rolls, n) == world.battered(requests, others, n),
    decreases n,
{
    if n > 0 {
        lemma_battered_rolls(world, requests, rolls, others, n - 1);
    }
}

/// Damage leaves everything but the grid, the dirty mark and the sounds as
/// it was, and keeps a well-formed world well-formed.
pub proof fn lemma_damage_keeps_world(
    world: World,
    x: int,
    y: int,
    amount: u32,
    ignore_durability: bool,
    roll: bool,
)
    requires
        world.wf(),
    ensures
        world.damaged_at(x, y, amount, ignore_durability, roll).wf(),
        world.damaged_at(x, y, amount, ignore_durability, roll) == (World {
            grid: world.damaged_at(x, y, amount, ignore_durability, roll).grid,
            dirty: world.damaged_at(x, y, amount, ignore_durability, roll).dirty,
            sounds: world.damaged_at(x, y, amount, ignore_durability, roll).sounds,
            ..world
        }),
{
    let after = world.damaged_at(x, y, amount, ignore_durability, roll);
    if in_grid(world.grid, x, y) && cell_at(world.grid, x, y).material != Material::Air {
        assert forall|i: int, j: int| in_grid(after.grid, i, j) implies (#[trigger] cell_at(
            after.grid,
            i,
            j,
        )).wf() by {
            if !(i == x && j == y) {
                assert(cell_at(after.grid, i, j) == cell_at(world.grid, i, j));
                assert(in_grid(world.grid, i, j));
            } else {
                assert(cell_at(world.grid, x, y).wf());
            }
        }
        if !after.dirty {
            assert forall|p: QuadTreeItem|
                is_solid_anchor(after.config, after.grid, p) == is_solid_anchor(
                    world.config,
                    world.grid,
                    p,
                ) by {
                if is_anchor(after.config, p) && !(p.tx == x && p.ty == y) {
                    assert(cell_at(after.grid, p.tx as int, p.ty as int) == cell_at(
                        world.grid,
                        p.tx as int,
                        p.ty as int,
                    ));
                }
            }
            assert(world.index_is_exact());
            assert(after.index_is_exact());
        }
    }
}

/// Meeting requests leaves everything but the grid, the dirty mark and the
/// sounds as it was, and keeps a well-formed world well-formed.
pub proof fn lemma_battered_keeps_world(
    world: World,
    requests: Seq<DamageRequest>,
    rolls: Seq<bool>,
    n: int,
)
    requires
        world.wf(),
    ensures
        world.battered(requests, rolls, n).wf(),
        world.battered(requests, rolls, n) == (World {
            grid: world.battered(requests, rolls, n).grid,
            dirty: world.battered(requests, rolls, n).dirty,
            sounds: world.battered(requests, rolls, n).sounds,
            ..world
        }),
    decreases n,
{
    if n > 0 {
        lemma_battered_keeps_world(world, requests, rolls, n - 1);
        let request = requests[n - 1];
        lemma_damage_keeps_world(
            world.battered(requests, rolls, n - 1),
            request.tx as int,
            request.ty as int,
            request.amount,
            request.ignore_durability,
            rolls[n - 1],
        );
    }
}

/// Damage does not look at the effects: what the requests do to a world
/// with other effects is what they do to the world, with those effects.
pub proof fn lemma_battered_keeps_effects(
    world: World,
    effects: Seq<Effect>,
    requests: Seq<DamageRequest>,
    rolls: Seq<bool>,
    n: int,
)
    ensures
        (World { effects, ..world }).battered(requests, rolls, n) == (World {
            effects,
            ..world.battered(requests, rolls, n)
        }),
    decreases n,
{
    if n > 0 {
        lemma_battered_keeps_effects(world, effects, requests, rolls, n - 1);
    }
}

/// After their step there are as many effects as before, children not
/// counted.
pub proof fn lemma_ticked_effects(
    world: World,
    units: Seq<(i32, i32)>,
    chances: Seq<Chance>,
    dt: u32,
    now: u64,
    n: int,
)
    requires
        0 <= n,
    ensures
        world.ticked(units, chances, dt, now, n).effects.len() == n,
    decreases n,
{
    if n > 0 {
        lemma_ticked_effects(world, units, chances, dt, now, n - 1);
    }
}

/// What the index holds while it is built: it is a well-formed tree over
/// the arena, and once the columns before `tx` and the first `ty` cells of
/// column `tx` have been gone through, it holds the anchors of the cells
/// among them that are not empty, each of them once, and nothing else.
pub proof fn lemma_indexed(config: Config, grid: Seq<Seq<Cell>>, tx: int, ty: int)
    requires
        config.wf(),
        shaped(grid, config),
        0 <= tx <= config.terrain_width,
        0 <= ty <= config.terrain_height,
        tx == config.terrain_width ==> ty == 0,
    ensures
        indexed_cells(config, grid, indexed_columns(config, grid, tx), tx, ty).wf(),
        indexed_cells(config, grid, indexed_columns(config, grid, tx), tx, ty).boundary == arena(
            config,
        ),
        indexed_cells(config, grid, indexed_columns(config, grid, tx), tx, ty).capacity
            == REBUILD_CAPACITY,
        indexed_cells(
            config,
            grid,
            indexed_columns(config, grid, tx),
            tx,
            ty,
        ).contents().no_duplicates(),
        forall|p: QuadTreeItem| #[trigger]
            indexed_cells(
                config,
                grid,
                indexed_columns(config, grid, tx),
                tx,
                ty,
            ).contents().contains(p) <==> (is_solid_anchor(config, grid, p) && earlier(p, tx, ty)),
    decreases tx, ty,
{
    let tree = indexed_cells(config, grid, indexed_columns(config, grid, tx), tx, ty);
    if ty > 0 {
        lemma_indexed(config, grid, tx, ty - 1);
        let before = indexed_cells(config, grid, indexed_columns(config, grid, tx), tx, ty - 1);
        let item = anchor(config, tx, ty - 1);
        lemma_anchor_in_arena(config, tx, ty - 1);
        if cell_at(grid, tx, ty - 1).material != Material::Air {
            lemma_inserted(before, item);
            lemma_insert_contains(before.contents(), before.slot(item), item);
            lemma_insert_no_duplicates(before.contents(), before.slot(item), item);
        }
        assert forall|p: QuadTreeItem| #[trigger]
            tree.contents().contains(p) <==> (is_solid_anchor(config, grid, p) && earlier(
                p,
                tx,
                ty,
            )) by {
            if is_solid_anchor(config, grid, p) && p.tx == tx && p.ty == ty - 1 {
                assert(p == item);
            }
        }
    } else if tx > 0 {
        lemma_indexed(config, grid, tx - 1, config.terrain_height as int);
        assert(indexed_columns(config, grid, tx) == indexed_cells(
            config,
            grid,
            indexed_columns(config, grid, tx - 1),
            tx - 1,
            config.terrain_height as int,
        ));
        assert forall|p: QuadTreeItem| #[trigger]
            tree.contents().contains(p) <==> (is_solid_anchor(config, grid, p) && earlier(
                p,
                tx,
                ty,
            )) by {
            assert(earlier(p, tx, 0) <==> (earlier(p, tx - 1, config.terrain_height as int) || (p.tx
                == tx - 1 && p.ty >= config.terrain_height)));
        }
    } else {
        lemma_leaf(arena(config), REBUILD_CAPACITY as nat, anchor(config, 0, 0));
    }
}

/// An index built anew matches the terrain, whatever damage came before: it
/// is a well-formed tree over the arena that holds the anchors of the cells
/// that are not empty, each of them once, and nothing else.
pub proof fn lemma_rebuilt_index_is_exact(world: World)
    requires
        world.config.wf(),
        shaped(world.grid, world.config),
        sound(world.grid),
    ensures
        world.refreshed().wf(),
        world.refreshed().index_is_exact(),
{
    lemma_indexed(world.config, world.grid, world.config.terrain_width as int, 0);
    let tree = rebuilt(world.config, world.grid);
    assert forall|i: int| 0 <= i < tree.contents().len() implies is_anchor(
        world.config,
        #[trigger] tree.contents()[i],
    ) by {
        assert(tree.contents().contains(tree.contents()[i]));
    }
}

/// While the state is not marked dirty, a query for the whole arena returns
/// the anchors of the cells that are not empty: each of them, each once, and
/// nothing else. This holds of every state whose index has been brought up
/// to date, whatever damage came before.
pub proof fn lemma_clean_index_is_exact(world: World)
    requires
        world.wf(),
        !world.dirty,
    ensures
        within(world.index(), arena(world.config)) == world.index(),
        within(world.index(), arena(world.config)).no_duplicates(),
        forall|p: QuadTreeItem|
            #![trigger within(world.index(), arena(world.config)).contains(p)]
            within(world.index(), arena(world.config)).contains(p) <==> is_solid_anchor(
                world.config,
                world.grid,
                p,
            ),
{
    assert forall|i: int| 0 <= i < world.index().len() implies in_range(arena(world.config))(
        #[trigger] world.index()[i],
    ) by {
        let p = world.index()[i];
        lemma_anchor_in_arena(world.config, p.tx as int, p.ty as int);
    }
    lemma_filter_keeps_all(world.index(), in_range(arena(world.config)));
}

/// Damage on an empty cell, or outside the grid, changes nothing: neither
/// the terrain, nor the dirty mark, nor the sounds. And once a hit has
/// emptied a cell, every further hit on that cell changes nothing.
pub proof fn lemma_damage_is_idle_on_air(
    world: World,
    x: int,
    y: int,
    amount: u32,
    ignore_durability: bool,
    roll: bool,
    next_amount: u32,
    next_ignore_durability: bool,
    next_roll: bool,
)
    ensures
        !in_grid(world.grid, x, y) || cell_at(world.grid, x, y).material == Material::Air
            ==> world.damaged_at(x, y, amount, ignore_durability, roll) == world,
        in_grid(world.grid, x, y) && crumbles(cell_at(world.grid, x, y), amount, ignore_durability)
            ==> world.damaged_at(x, y, amount, ignore_durability, roll).damaged_at(
            x,
            y,
            next_amount,
            next_ignore_durability,
            next_roll,
        ) == world.damaged_at(x, y, amount, ignore_durability, roll),
{
}

/// A step of the simulation keeps a well-formed world well-formed: in
/// particular every cell is empty exactly when it has no durability left,
/// after every step as after every hit.
pub proof fn lemma_tick_keeps_world(
    world: World,
    units: Seq<(i32, i32)>,
    chances: Seq<Chance>,
    rolls: Seq<bool>,
    dt: u32,
    now: u64,
)
    requires
        world.wf(),
    ensures
        world.after_tick(units, chances, rolls, dt, now).wf(),
        sound(world.after_tick(units, chances, rolls, dt, now).grid),
{
    let tick = world.ticked(units, chances, dt, now, world.effects.len() as int);
    lemma_battered_keeps_world(world, tick.requests, rolls, tick.requests.len() as int);
}

/// Generation can be repeated: the terrain is a function of the samples,
/// so that the same samples give the same terrain and the same index over
/// whatever was there before, and with a configured seed the seed that the
/// noise is sampled with is the same whatever is drawn.
pub proof fn lemma_generation_is_reproducible(
    first: World,
    second: World,
    samples: Seq<Vec<i32>>,
    drawn: u32,
    drawn_again: u32,
)
    requires
        first.config == second.config,
        first.seed == second.seed,
    ensures
        (World { grid: generated(first.config, samples), ..first }).refreshed().grid == (World {
            grid: generated(second.config, samples),
            ..second
        }).refreshed().grid,
        (World { grid: generated(first.config, samples), ..first }).refreshed().tree == (World {
            grid: generated(second.config, samples),
            ..second
        }).refreshed().tree,
        first.seed != UNSET_SEED ==> chosen_seed(first.seed, drawn) == chosen_seed(
            second.seed,
            drawn_again,
        ),
{
}

/// A bubble has no children or two, never one or three.
pub proof fn lemma_bubble_splits_in_two(
    parent: Effect,
    roll: bool,
    offsets: Seq<u32>,
    now: u64,
    already: int,
)
    requires
        parent.effect_type == EffectType::Bubbles,
    ensures
        offspring(parent, roll, offsets, now, already).len() == 0 || offspring(
            parent,
            roll,
            offsets,
            now,
            already,
        ).len() == 2,
        offspring(parent, roll, offsets, now, already).len() == 2 <==> (!parent.spawned && roll
            && already + 2 <= SPAWN_CAP),
{
}

/// However many effects could have children in one step, no more than
/// `SPAWN_CAP` children are born in it.
pub proof fn lemma_children_within_cap(
    world: World,
    units: Seq<(i32, i32)>,
    chances: Seq<Chance>,
    dt: u32,
    now: u64,
    n: int,
)
    ensures
        world.ticked(units, chances, dt, now, n).children.len() <= SPAWN_CAP,
    decreases n,
{
    if n > 0 {
        lemma_children_within_cap(world, units, chances, dt, now, n - 1);
    }
}

/// What a step does to effect `i`: it moves the effect, and leaves its kind
/// and the time of its birth alone.
pub proof fn lemma_ticked_effect(
    world: World,
    units: Seq<(i32, i32)>,
    chances: Seq<Chance>,
    dt: u32,
    now: u64,
    n: int,
    i: int,
)
    requires
        0 <= i < n,
    ensures
        world.ticked(units, chances, dt, now, n).effects.len() == n,
        world.ticked(units, chances, dt, now, n).effects[i].started_at
            == world.effects[i].started_at,
        world.ticked(units, chances, dt, now, n).effects[i].effect_type
            == world.effects[i].effect_type,
        world.ticked(units, chances, dt, now, n).effects[i].position == moved(
            world.effects[i].effect_type,
            world.effects[i].position,
            units[i],
            dt,
        ),
    decreases n,
{
    lemma_ticked_effects(world, units, chances, dt, now, n);
    lemma_ticked_effects(world, units, chances, dt, now, n - 1);
    if i < n - 1 {
        lemma_ticked_effect(world, units, chances, dt, now, n - 1, i);
    }
}

/// The effects after a step are those that are younger than `LIFETIME`:
/// every effect there is alive, and effect `i` is there after its step if
/// and only if it is alive, which the step itself does not change. An
/// effect leaves in the step in which its age reaches `LIFETIME`, not
/// before.
pub proof fn lemma_effects_end_with_their_life(
    world: World,
    units: Seq<(i32, i32)>,
    chances: Seq<Chance>,
    rolls: Seq<bool>,
    dt: u32,
    now: u64,
    i: int,
)
    requires
        0 <= i < world.effects.len(),
    ensures
        forall|j: int|
            0 <= j < world.after_tick(units, chances, rolls, dt, now).effects.len() ==> alive(
                #[trigger] world.after_tick(units, chances, rolls, dt, now).effects[j],
                now,
            ),
        world.after_tick(units, chances, rolls, dt, now).effects.contains(
            world.ticked(units, chances, dt, now, world.effects.len() as int).effects[i],
        ) <==> alive(world.effects[i], now),
        alive(world.effects[i], now) <==> age(world.effects[i], now) < LIFETIME,
{
    let n = world.effects.len() as int;
    let tick = world.ticked(units, chances, dt, now, n);
    let all = tick.effects + tick.children;
    let after = world.after_tick(units, chances, rolls, dt, now).effects;
    let stepped = tick.effects[i];
    lemma_ticked_effect(world, units, chances, dt, now, n, i);
    assert(after == all.filter(alive_at(now)));
    assert forall|j: int| 0 <= j < after.len() implies alive(#[trigger] after[j], now) by {
        all.lemma_filter_pred(alive_at(now), j);
    }
    assert(all[i] == stepped);
    if alive(world.effects[i], now) {
        assert(alive_at(now)(all[i]));
        all.lemma_filter_contains(alive_at(now), i);
    }
    if after.contains(stepped) {
        let j = choose|j: int| 0 <= j < after.len() && after[j] == stepped;
        all.lemma_filter_pred(alive_at(now), j);
    }
}

} // verus!
