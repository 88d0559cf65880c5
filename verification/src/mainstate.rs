//! The state of a simulation: the terrain, the spatial index over its solid
//! cells, the effects that move across it, and what the presentation is to
//! play and to show.

use vstd::prelude::*;
use crate::cell::Cell;
use crate::chance::{random_below, random_ratio};
use crate::config::{Config, UNSET_SEED};
use crate::effect::{normalize, normalized, Effect, EffectType, FULL_TURN};
use crate::input::{click_meaning, click_target, ClickAction};
use crate::materials::Material;
use crate::noisegenerator::{lemma_generator_steps, NoiseGenerator};
use crate::quadtree::{QuadTree, QuadTreeItem, Rect};
use crate::simulation::{
    advance, alive_at, cell_at, deflect, grid_of, in_grid, is_alive, reach_of, scan_candidates,
    spawn_children, DamageRequest, BURST_SPREAD, SPAWN_CAP, SPLIT_SPREAD,
};
use crate::world::{
    blank, chosen_seed, classified, classify, fresh_effect, generated, indexed_cells,
    indexed_columns, lemma_anchor_in_arena, lemma_battered_keeps_effects, lemma_battered_rolls,
    lemma_damage_keeps_world, lemma_rebuilt_index_is_exact, lemma_ticked_draws,
    lemma_ticked_effects, low_bits, shaped, Chance, SoundCue, World, INITIAL_CAPACITY,
    INTRO_TIME, REBUILD_CAPACITY, SEED_RANGE,
};

verus! {

/// What one effect leaves behind in one step, besides its own change.
#[derive(Debug, Clone, PartialEq, Eq)]
pub struct Outcome {
    /// The damage it demands, in the order in which it met the cells.
    pub requests: Vec<DamageRequest>,
    /// Its children.
    pub children: Vec<Effect>,
    /// The sound of its meeting a wall.
    pub cue: Option<SoundCue>,
}

/// The state of a simulation.
pub struct MainState {
    terrain: Vec<Vec<Cell>>,
    effects: Vec<Effect>,
    seed: i64,
    noise_generator: NoiseGenerator,
    config: Config,
    selected_effect: EffectType,
    sounds: Vec<SoundCue>,
    terrain_quadtree: QuadTree,
    quadtree_dirty: bool,
    intro_timer: u64,
    show_intro: bool,
}

impl View for MainState {
    type V = World;

    closed spec fn view(&self) -> World {
        World {
            config: self.config,
            grid: grid_of(self.terrain@),
            tree: self.terrain_quadtree@,
            dirty: self.quadtree_dirty,
            effects: self.effects@,
            selected: self.selected_effect,
            sounds: self.sounds@,
            intro_timer: self.intro_timer,
            show_intro: self.show_intro,
            seed: self.seed,
            noise: self.noise_generator,
        }
    }
}

impl MainState {
    /// The index is stored as its shape says.
    pub closed spec fn tree_ok(self) -> bool {
        self.terrain_quadtree.wf()
    }

    /// The invariant of a state: that of the world it holds, over a
    /// well-formed index.
    pub open spec fn wf(self) -> bool {
        self@.wf() && self.tree_ok()
    }

    /// A state with empty terrain, no effects and the introduction showing.
    /// The noise sources are built from the configured seed.
    pub fn new(config: Config) -> (state: MainState)
        requires
            config.wf(),
        ensures
            state.wf(),
            state@ == World::initial(config),
    {
        let mut terrain: Vec<Vec<Cell>> = Vec::new();
        let mut x: usize = 0;
        while x < config.terrain_width
            invariant
                x <= config.terrain_width,
                terrain@.len() == x,
                forall|i: int|
                    0 <= i < x ==> (#[trigger] terrain@[i])@.len() == config.terrain_height,
                forall|i: int, j: int|
                    0 <= i < x && 0 <= j < config.terrain_height ==> (#[trigger] terrain@[i]@[j])
                        == Cell::air(),
            decreases config.terrain_width - x,
        {
            let mut column: Vec<Cell> = Vec::new();
            let mut y: usize = 0;
            while y < config.terrain_height
                invariant
                    y <= config.terrain_height,
                    column@.len() == y,
                    forall|j: int| 0 <= j < y ==> (#[trigger] column@[j]) == Cell::air(),
                decreases config.terrain_height - y,
            {
                column.push(Cell { material: Material::Air, durability: 0 });
                y += 1;
            }
            terrain.push(column);
            x += 1;
        }
        let boundary = Rect::new(0, 0, config.screen_width, config.screen_height);
        #[verifier::truncate]
        let seed = config.seed as u32;
        let state = MainState {
            terrain,
            effects: Vec::new(),
            seed: config.seed,
            noise_generator: NoiseGenerator::new(config.noise_type, seed),
            config,
            selected_effect: EffectType::Bubbles,
            sounds: Vec::new(),
            terrain_quadtree: QuadTree::new(boundary, INITIAL_CAPACITY),
            quadtree_dirty: false,
            intro_timer: INTRO_TIME,
            show_intro: true,
        };
        proof {
            assert(state@.grid =~~= blank(config));
        }
        state
    }

    /// Builds the index anew from the terrain as it is.
    fn rebuild_quadtree(&mut self)
        requires
            old(self).wf(),
        ensures
            final(self).wf(),
            final(self)@ == old(self)@.refreshed(),
            final(self)@.index_is_exact(),
    {
        let width = self.config.terrain_width;
        let height = self.config.terrain_height;
        let cell_size = self.config.cell_size;
        let boundary = Rect::new(0, 0, self.config.screen_width, self.config.screen_height);
        let mut tree = QuadTree::new(boundary, REBUILD_CAPACITY);
        let ghost config = self.config;
        let ghost grid = self@.grid;
        let mut tx: usize = 0;
        while tx < width
            invariant
                tx <= width,
                width == config.terrain_width,
                height == config.terrain_height,
                cell_size == config.cell_size,
                config == self.config,
                grid == grid_of(self.terrain@),
                config.wf(),
                shaped(grid, config),
                tree.wf(),
                tree@ == indexed_columns(config, grid, tx as int),
            decreases width - tx,
        {
            let mut ty: usize = 0;
            while ty < height
                invariant
                    tx < width,
                    ty <= height,
                    width == config.terrain_width,
                    height == config.terrain_height,
                    cell_size == config.cell_size,
                    config == self.config,
                    grid == grid_of(self.terrain@),
                    config.wf(),
                    shaped(grid, config),
                    tree.wf(),
                    tree@ == indexed_cells(
                        config,
                        grid,
                        indexed_columns(config, grid, tx as int),
                        tx as int,
                        ty as int,
                    ),
                decreases height - ty,
            {
                proof {
                    lemma_anchor_in_arena(config, tx as int, ty as int);
                }
                let cell = self.terrain[tx][ty];
                if cell.material != Material::Air {
                    let cx: i64 = tx as i64 * cell_size + cell_size / 2;
                    let cy: i64 = ty as i64 * cell_size + cell_size / 2;
                    tree.insert(QuadTreeItem { x: cx, y: cy, tx, ty });
                }
                ty += 1;
            }
            tx += 1;
        }
        self.terrain_quadtree = tree;
        self.quadtree_dirty = false;
        proof {
            lemma_rebuilt_index_is_exact(old(self)@);
        }
    }

    /// Brings the index up to date with the terrain if it is marked dirty,
    /// and leaves it alone otherwise.
    pub fn update_quadtree_if_needed(&mut self)
        requires
            old(self).wf(),
        ensures
            final(self).wf(),
            !final(self)@.dirty,
            final(self)@.index_is_exact(),
            !old(self)@.dirty ==> *final(self) == *old(self),
            final(self)@ == old(self)@.caught_up(),
    {
        if self.quadtree_dirty {
            self.rebuild_quadtree();
        }
    }

    /// Picks the seed of the next terrain and rebuilds from it the noise
    /// source in use: the configured seed, or, where none is configured,
    /// one drawn at random from `0..SEED_RANGE`.
    pub fn reseed(&mut self) -> (seed: u32)
        requires
            old(self).wf(),
        ensures
            final(self).wf(),
            old(self)@.seed != UNSET_SEED ==> seed == low_bits(old(self)@.seed),
            old(self)@.seed == UNSET_SEED ==> seed < SEED_RANGE,
            final(self)@ == (World { noise: old(self)@.noise.reseeded(seed), ..old(self)@ }),
    {
        let drawn = if self.seed == UNSET_SEED {
            random_below(SEED_RANGE)
        } else {
            0
        };
        self.reseed_with(drawn)
    }

    /// Rebuilds the noise source in use from the configured seed, or from
    /// `drawn` where none is configured, and returns the seed used.
    pub fn reseed_with(&mut self, drawn: u32) -> (seed: u32)
        requires
            old(self).wf(),
        ensures
            final(self).wf(),
            seed == chosen_seed(old(self)@.seed, drawn),
            final(self)@ == (World { noise: old(self)@.noise.reseeded(seed), ..old(self)@ }),
    {
        let seed = if self.seed == UNSET_SEED {
            drawn
        } else {
            #[verifier::truncate]
            let low = self.seed as u32;
            low
        };
        self.noise_generator.generate(seed);
        seed
    }

    /// Replaces the terrain by the one that `samples` stands for, one noise
    /// sample in thousandths for each cell, and builds the index anew.
    pub fn generate_terrain(&mut self, samples: &Vec<Vec<i32>>)
        requires
            old(self).wf(),
            samples@.len() == old(self)@.config.terrain_width,
            forall|x: int|
                0 <= x < samples@.len() ==> (#[trigger] samples@[x])@.len() == old(
                    self,
                )@.config.terrain_height,
        ensures
            final(self).wf(),
            final(self)@ == (World {
                grid: generated(old(self)@.config, samples@),
                ..old(self)@
            }).refreshed(),
            final(self)@.index_is_exact(),
    {
        let width = self.config.terrain_width;
        let height = self.config.terrain_height;
        self.quadtree_dirty = true;
        let mut x: usize = 0;
        while x < width
            invariant
                x <= width,
                width == self.config.terrain_width,
                height == self.config.terrain_height,
                self.wf(),
                self@ == (World { grid: self@.grid, dirty: true, ..old(self)@ }),
                samples@.len() == width,
                forall|i: int|
                    0 <= i < samples@.len() ==> (#[trigger] samples@[i])@.len() == height,
                forall|i: int, j: int|
                    0 <= i < x && 0 <= j < height ==> #[trigger] cell_at(self@.grid, i, j)
                        == classified(samples@[i]@[j]),
            decreases width - x,
        {
            let mut y: usize = 0;
            while y < height
                invariant
                    x < width,
                    y <= height,
                    width == self.config.terrain_width,
                    height == self.config.terrain_height,
                    self.wf(),
                    self@ == (World { grid: self@.grid, dirty: true, ..old(self)@ }),
                    samples@.len() == width,
                    forall|i: int|
                        0 <= i < samples@.len() ==> (#[trigger] samples@[i])@.len() == height,
                    forall|i: int, j: int|
                        (0 <= i < x && 0 <= j < height) || (i == x && 0 <= j < y)
                            ==> #[trigger] cell_at(self@.grid, i, j) == classified(samples@[i]@[j]),
                decreases height - y,
            {
                let ghost before = self@.grid;
                assert(before[x as int].len() == height);
                let cell = classify(samples[x][y]);
                self.terrain[x][y] = cell;
                proof {
                    assert(self@.grid =~= before.update(
                        x as int,
                        before[x as int].update(y as int, cell),
                    ));
                    assert forall|i: int, j: int| in_grid(self@.grid, i, j) implies (
                    #[trigger] cell_at(self@.grid, i, j)).wf() by {
                        if !(i == x && j == y) {
                            assert(cell_at(self@.grid, i, j) == cell_at(before, i, j));
                        }
                    }
                    assert forall|i: int, j: int|
                        (0 <= i < x && 0 <= j < height) || (i == x && 0 <= j < y + 1) implies
                        #[trigger] cell_at(self@.grid, i, j) == classified(samples@[i]@[j]) by {
                        if !(i == x && j == y) {
                            assert(cell_at(self@.grid, i, j) == cell_at(before, i, j));
                        }
                    }
                }
                y += 1;
            }
            x += 1;
        }
        proof {
            assert(self@.grid =~~= generated(self@.config, samples@)) by {
                assert forall|i: int, j: int|
                    0 <= i < width && 0 <= j < height implies self@.grid[i][j] == classified(
                    samples@[i]@[j],
                ) by {
                    assert(cell_at(self@.grid, i, j) == classified(samples@[i]@[j]));
                }
            }
        }
        self.rebuild_quadtree();
    }

    /// Damages the cell `(x, y)` by `amount` points, or destroys it where
    /// `ignore_durability` is set. One time in ten a cell that crumbles is
    /// heard. Returns the material of the cell after the hit, and air for a
    /// place outside the grid.
    pub fn damage_terrain_at(
        &mut self,
        x: usize,
        y: usize,
        amount: u32,
        ignore_durability: bool,
    ) -> (material: Material)
        requires
            old(self).wf(),
        ensures
            final(self).wf(),
            final(self)@ == old(self)@.damaged_at(
                x as int,
                y as int,
                amount,
                ignore_durability,
                true,
            ) || final(self)@ == old(self)@.damaged_at(
                x as int,
                y as int,
                amount,
                ignore_durability,
                false,
            ),
            material == if in_grid(final(self)@.grid, x as int, y as int) {
                cell_at(final(self)@.grid, x as int, y as int).material
            } else {
                Material::Air
            },
            !in_grid(old(self)@.grid, x as int, y as int) || cell_at(
                old(self)@.grid,
                x as int,
                y as int,
            ).material == Material::Air ==> *final(self) == *old(self),
    {
        let mut roll = false;
        if x < self.terrain.len() && y < self.terrain[x].len() {
            let cell = self.terrain[x][y];
            if cell.material != Material::Air && (ignore_durability || cell.durability <= amount) {
                roll = random_ratio(1, 10);
            }
        }
        self.damage_terrain_with(x, y, amount, ignore_durability, roll)
    }

    /// Damages the cell `(x, y)` by `amount` points, or destroys it where
    /// `ignore_durability` is set. A cell that crumbles is heard if `roll`
    /// is set. Returns the material of the cell after the hit, and air for a
    /// place outside the grid.
    pub fn damage_terrain_with(
        &mut self,
        x: usize,
        y: usize,
        amount: u32,
        ignore_durability: bool,
        roll: bool,
    ) -> (material: Material)
        requires
            old(self).wf(),
        ensures
            final(self).wf(),
            final(self)@ == old(self)@.damaged_at(
                x as int,
                y as int,
                amount,
                ignore_durability,
                roll,
            ),
            material == if in_grid(final(self)@.grid, x as int, y as int) {
                cell_at(final(self)@.grid, x as int, y as int).material
            } else {
                Material::Air
            },
            !in_grid(old(self)@.grid, x as int, y as int) || cell_at(
                old(self)@.grid,
                x as int,
                y as int,
            ).material == Material::Air ==> *final(self) == *old(self),
    {
        if x >= self.terrain.len() || y >= self.terrain[x].len() {
            return Material::Air;
        }
        let cell = self.terrain[x][y];
        if cell.material == Material::Air {
            return Material::Air;
        }
        let ghost before = self@;
        let crumbling = ignore_durability || cell.durability <= amount;
        if crumbling && roll {
            if cell.material == Material::Rock {
                self.sounds.push(SoundCue::Stone);
            } else {
                self.sounds.push(SoundCue::Grass);
            }
        }
        let mut after = cell;
        after.damage(amount, ignore_durability);
        self.terrain[x][y] = after;
        if after.material == Material::Air {
            self.quadtree_dirty = true;
        }
        proof {
            lemma_damage_keeps_world(before, x as int, y as int, amount, ignore_durability, roll);
            assert(self@.grid =~= before.damaged_at(
                x as int,
                y as int,
                amount,
                ignore_durability,
                roll,
            ).grid);
        }
        after.material
    }

    /// Asks the presentation to play `cue`.
    pub fn play_sound(&mut self, cue: SoundCue)
        ensures
            final(self)@ == (World { sounds: old(self)@.sounds.push(cue), ..old(self)@ }),
            old(self).wf() ==> final(self).wf(),
    {
        self.sounds.push(cue);
    }

    /// Creates an effect of the selected kind at `(x, y)` at time `now`,
    /// with a heading drawn at random from the full turn.
    pub fn spawn_effect(&mut self, x: i64, y: i64, now: u64)
        ensures
            final(self)@.effects.len() == old(self)@.effects.len() + 1,
            final(self)@.effects.last().direction < FULL_TURN,
            final(self)@ == (World {
                effects: old(self)@.effects.push(
                    fresh_effect(
                        old(self)@.selected,
                        x,
                        y,
                        final(self)@.effects.last().direction as int,
                        now,
                    ),
                ),
                ..old(self)@
            }),
            old(self).wf() ==> final(self).wf(),
    {
        let heading = random_below(FULL_TURN);
        self.spawn_effect_with(x, y, now, heading);
    }

    /// Creates an effect of the selected kind at `(x, y)` at time `now`,
    /// with the heading `heading` brought into the full turn.
    pub fn spawn_effect_with(&mut self, x: i64, y: i64, now: u64, heading: u32)
        ensures
            final(self)@ == (World {
                effects: old(self)@.effects.push(
                    fresh_effect(old(self)@.selected, x, y, normalized(heading as int), now),
                ),
                ..old(self)@
            }),
            old(self).wf() ==> final(self).wf(),
    {
        self.effects.push(
            Effect {
                effect_type: self.selected_effect,
                position: (x, y),
                direction: normalize(heading),
                started_at: now,
                spawned: false,
            },
        );
    }

    /// Takes `effect` through one step of `dt` microseconds at time `now`
    /// along the direction `unit`, with the draws of `chance`, in a step in
    /// which `already` children have been born before. The terrain is only
    /// read: the damage that the effect demands is returned.
    pub fn step_effect(
        &self,
        effect: &mut Effect,
        unit: (i32, i32),
        dt: u32,
        now: u64,
        already: usize,
        chance: &Chance,
    ) -> (outcome: Outcome)
        requires
            self.wf(),
        ensures
            *final(effect) == self@.stepped(
                *old(effect),
                unit,
                dt,
                now,
                already as int,
                *chance,
            ).effect,
            outcome.requests@ == self@.stepped(
                *old(effect),
                unit,
                dt,
                now,
                already as int,
                *chance,
            ).requests,
            outcome.children@ == self@.stepped(
                *old(effect),
                unit,
                dt,
                now,
                already as int,
                *chance,
            ).children,
            outcome.cue == self@.stepped(*old(effect), unit, dt, now, already as int, *chance).cue,
            already <= SPAWN_CAP ==> already + outcome.children@.len() <= SPAWN_CAP,
    {
        let width = self.config.screen_width;
        let height = self.config.screen_height;
        let radius = self.config.cell_size;
        effect.position = advance(effect.effect_type, effect.position, unit, dt);
        let beyond = effect.position.0 <= 0 || effect.position.0 >= width || effect.position.1 <= 0
            || effect.position.1 >= height;
        effect.bounce(width, height);
        let cue = if beyond {
            if chance.bounce_pick % 2 == 0 {
                Some(SoundCue::Boing)
            } else {
                Some(SoundCue::BoingCasseur)
            }
        } else {
            None
        };
        let candidates = self.terrain_quadtree.query(reach_of(effect.position, radius));
        let (requests, blocked) = scan_candidates(
            &self.terrain,
            &candidates,
            effect.position,
            radius,
            effect.effect_type,
        );
        if blocked {
            effect.direction = deflect(effect.direction, chance.deflection);
        }
        let children = spawn_children(effect, chance.spawn_roll, &chance.offsets, now, already);
        Outcome { requests, children, cue }
    }

    /// Makes the draws that `effect` may need in one step: which sound a
    /// wall makes, how a cell throws it back and, for an effect that can
    /// still have children, whether it has them now and how each child
    /// turns away from it. A bubble has its children one time in five, a
    /// bursting bubble every other time.
    fn draw_chance(effect: &Effect) -> (chance: Chance)
        ensures
            chance.drawn_for(*effect),
    {
        let bounce_pick = random_below(2);
        let deflection = random_below(FULL_TURN);
        let mut spawn_roll = false;
        let mut offsets: Vec<u32> = Vec::new();
        if !effect.spawned {
            match effect.effect_type {
                EffectType::Bubbles => {
                    spawn_roll = random_ratio(1, 5);
                    if spawn_roll {
                        offsets.push(random_below(2 * SPLIT_SPREAD));
                    }
                },
                EffectType::MoreBubbles => {
                    spawn_roll = random_ratio(1, 2);
                    let mut k: usize = 0;
                    while spawn_roll && k < SPAWN_CAP
                        invariant
                            k <= SPAWN_CAP,
                            !spawn_roll ==> k == 0,
                            offsets@.len() == k,
                            forall|j: int|
                                0 <= j < offsets@.len() ==> #[trigger] offsets@[j] < 2
                                    * BURST_SPREAD,
                        decreases SPAWN_CAP - k,
                    {
                        offsets.push(random_below(2 * BURST_SPREAD));
                        k += 1;
                    }
                },
                EffectType::Lightning => {},
            }
        }
        Chance { bounce_pick, deflection, spawn_roll, offsets }
    }

    /// Takes every effect through its step, one after the other, each with
    /// draws of its own. The terrain is only read: the damage that the
    /// effects demand, their children and the sounds of the walls are
    /// returned, together with the draws that were made.
    fn step_effects(&mut self, now: u64, dt: u32, units: &Vec<(i32, i32)>) -> (batch: (
        Vec<DamageRequest>,
        Vec<Effect>,
        Vec<SoundCue>,
        Ghost<Seq<Chance>>,
    ))
        requires
            old(self).wf(),
            units@.len() == old(self)@.effects.len(),
        ensures
            final(self).wf(),
            old(self)@.drew(batch.3@),
            final(self)@ == (World {
                effects: old(self)@.ticked(
                    units@,
                    batch.3@,
                    dt,
                    now,
                    units@.len() as int,
                ).effects,
                ..old(self)@
            }),
            batch.0@ == old(self)@.ticked(units@, batch.3@, dt, now, units@.len() as int).requests,
            batch.1@ == old(self)@.ticked(units@, batch.3@, dt, now, units@.len() as int).children,
            batch.2@ == old(self)@.ticked(units@, batch.3@, dt, now, units@.len() as int).cues,
    {
        let ghost start = self@;
        let n = self.effects.len();
        let mut requests: Vec<DamageRequest> = Vec::new();
        let mut children: Vec<Effect> = Vec::new();
        let mut cues: Vec<SoundCue> = Vec::new();
        let ghost mut chances: Seq<Chance> = Seq::empty();
        let mut i: usize = 0;
        while i < n
            invariant
                i <= n,
                n == start.effects.len(),
                units@.len() == n,
                chances.len() == i,
                forall|j: int| 0 <= j < i ==> (#[trigger] chances[j]).drawn_for(start.effects[j]),
                self.wf(),
                self@ == (World { effects: self@.effects, ..start }),
                self@.effects =~= start.ticked(units@, chances, dt, now, i as int).effects
                    + start.effects.skip(i as int),
                requests@ == start.ticked(units@, chances, dt, now, i as int).requests,
                children@ == start.ticked(units@, chances, dt, now, i as int).children,
                cues@ == start.ticked(units@, chances, dt, now, i as int).cues,
                children@.len() <= SPAWN_CAP,
            decreases n - i,
        {
            proof {
                lemma_ticked_effects(start, units@, chances, dt, now, i as int);
            }
            let mut effect = self.effects[i];
            let chance = Self::draw_chance(&effect);
            let mut outcome = self.step_effect(
                &mut effect,
                units[i],
                dt,
                now,
                children.len(),
                &chance,
            );
            proof {
                lemma_ticked_draws(start, units@, chances, chances.push(chance), dt, now, i as int);
                chances = chances.push(chance);
            }
            self.effects[i] = effect;
            requests.append(&mut outcome.requests);
            children.append(&mut outcome.children);
            match outcome.cue {
                Some(cue) => {
                    cues.push(cue);
                },
                None => {},
            }
            i += 1;
        }
        proof {
            lemma_ticked_effects(start, units@, chances, dt, now, n as int);
            assert(self@.effects =~= start.ticked(units@, chances, dt, now, n as int).effects);
        }
        (requests, children, cues, Ghost(chances))
    }

    /// Does the damage that `requests` demand, demand by demand, and
    /// returns for every demand whether its cell was to be heard.
    fn apply_requests(&mut self, requests: &Vec<DamageRequest>) -> (rolls: Ghost<Seq<bool>>)
        requires
            old(self).wf(),
        ensures
            final(self).wf(),
            final(self)@ == old(self)@.battered(requests@, rolls@, requests@.len() as int),
    {
        let ghost start = self@;
        let ghost mut rolls: Seq<bool> = Seq::empty();
        let mut k: usize = 0;
        while k < requests.len()
            invariant
                k <= requests@.len(),
                rolls.len() == k,
                self.wf(),
                self@ == start.battered(requests@, rolls, k as int),
            decreases requests@.len() - k,
        {
            let request = requests[k];
            let ghost before = self@;
            self.damage_terrain_at(
                request.tx,
                request.ty,
                request.amount,
                request.ignore_durability,
            );
            proof {
                let roll = self@ == before.damaged_at(
                    request.tx as int,
                    request.ty as int,
                    request.amount,
                    request.ignore_durability,
                    true,
                );
                lemma_battered_rolls(start, requests@, rolls, rolls.push(roll), k as int);
                rolls = rolls.push(roll);
            }
            k += 1;
        }
        Ghost(rolls)
    }

    /// Removes the effects that have reached the end of their life at time
    /// `now`.
    fn retire_effects(&mut self, now: u64)
        requires
            old(self).wf(),
        ensures
            final(self).wf(),
            final(self)@ == (World {
                effects: old(self)@.effects.filter(alive_at(now)),
                ..old(self)@
            }),
    {
        let mut kept: Vec<Effect> = Vec::new();
        let mut j: usize = 0;
        while j < self.effects.len()
            invariant
                j <= self.effects@.len(),
                kept@ == self.effects@.take(j as int).filter(alive_at(now)),
            decreases self.effects@.len() - j,
        {
            let effect = self.effects[j];
            proof {
                let seen = self.effects@.take(j as int);
                assert(self.effects@.take(j + 1) =~= seen.push(effect));
                seen.lemma_filter_push(effect, alive_at(now));
            }
            if is_alive(&effect, now) {
                kept.push(effect);
            }
            j += 1;
        }
        proof {
            assert(self.effects@.take(j as int) =~= self.effects@);
        }
        self.effects = kept;
    }

    /// Takes the simulation through one step of `dt` microseconds at time
    /// `now`, where `units[i]` is the direction in which effect `i` moves.
    /// The index is brought up to date first. Then all effects take their
    /// step, the damage they demand is done, their children join them, the
    /// effects that have reached the end of their life leave, and the
    /// sounds of the walls are added to the sounds to play. The outcome is
    /// that of `after_tick` for the draws that were made.
    pub fn update_effects(&mut self, now: u64, dt: u32, units: &Vec<(i32, i32)>)
        requires
            old(self).wf(),
            units@.len() == old(self)@.effects.len(),
        ensures
            final(self).wf(),
            exists|chances: Seq<Chance>, rolls: Seq<bool>|
                old(self)@.drew(chances) && final(self)@ == #[trigger] old(
                    self,
                )@.caught_up().after_tick(units@, chances, rolls, dt, now),
    {
        self.update_quadtree_if_needed();
        let ghost start = self@;
        let (requests, mut children, mut cues, chances) = self.step_effects(now, dt, units);
        let ghost stepped = self@;
        let rolls = self.apply_requests(&requests);
        self.effects.append(&mut children);
        self.retire_effects(now);
        self.sounds.append(&mut cues);
        proof {
            lemma_battered_keeps_effects(
                start,
                stepped.effects,
                requests@,
                rolls@,
                requests@.len() as int,
            );
            assert(self@ == start.after_tick(units@, chances@, rolls@, dt, now));
        }
    }

    /// Takes the state through one frame that comes `elapsed` milliseconds
    /// after the last, at time `now`. While the introduction shows, its
    /// time runs down and nothing else happens; it ends when no time is
    /// left. After that every frame is one step of the simulation, of the
    /// configured length.
    pub fn update(&mut self, elapsed: u64, now: u64, units: &Vec<(i32, i32)>)
        requires
            old(self).wf(),
            !old(self)@.show_intro ==> units@.len() == old(self)@.effects.len(),
        ensures
            final(self).wf(),
            old(self)@.show_intro ==> final(self)@ == (World {
                intro_timer: if elapsed >= old(self)@.intro_timer {
                    0
                } else {
                    (old(self)@.intro_timer - elapsed) as u64
                },
                show_intro: elapsed < old(self)@.intro_timer,
                ..old(self)@
            }),
            !old(self)@.show_intro ==> {
                &&& exists|chances: Seq<Chance>, rolls: Seq<bool>|
                    old(self)@.drew(chances) && final(self)@ == #[trigger] old(
                        self,
                    )@.caught_up().after_tick(
                        units@,
                        chances,
                        rolls,
                        old(self)@.config.fixed_delta,
                        now,
                    )
            },
    {
        if self.show_intro {
            if elapsed >= self.intro_timer {
                self.intro_timer = 0;
                self.show_intro = false;
            } else {
                self.intro_timer = self.intro_timer - elapsed;
            }
            return ;
        }
        let dt = self.config.fixed_delta;
        self.update_effects(now, dt, units);
    }

    /// Makes `kind` the kind of effect that clicks create from now on.
    pub fn select_effect(&mut self, kind: EffectType)
        ensures
            final(self)@ == (World { selected: kind, ..old(self)@ }),
            old(self).wf() ==> final(self).wf(),
    {
        self.selected_effect = kind;
    }

    /// Removes all effects and picks the seed of the next terrain, as
    /// `reseed` does. The terrain itself is replaced once the caller hands
    /// the samples for that seed to `generate_terrain`.
    pub fn reset(&mut self) -> (seed: u32)
        requires
            old(self).wf(),
        ensures
            final(self).wf(),
            old(self)@.seed != UNSET_SEED ==> seed == low_bits(old(self)@.seed),
            old(self)@.seed == UNSET_SEED ==> seed < SEED_RANGE,
            final(self)@ == (World {
                effects: Seq::empty(),
                noise: old(self)@.noise.reseeded(seed),
                ..old(self)@
            }),
    {
        self.effects.clear();
        self.reseed()
    }

    /// Acts on a press of a mouse button at `(x, y)` at time `now`, where
    /// `left` says whether it is the left button. A press on a button is
    /// heard; on the reset button it resets the state, on another it
    /// selects that button's kind of effect. A press below the buttons
    /// creates an effect there.
    pub fn mouse_button_down_event(&mut self, left: bool, x: i64, y: i64, now: u64) -> (action:
        ClickAction)
        requires
            old(self).wf(),
        ensures
            final(self).wf(),
            action == click_meaning(left, x, y),
            action == ClickAction::Ignored ==> *final(self) == *old(self),
            action == ClickAction::Reset ==> {
                &&& final(self)@ == (World {
                    effects: Seq::empty(),
                    sounds: old(self)@.sounds.push(SoundCue::ButtonClick),
                    noise: old(self)@.noise.reseeded(final(self)@.noise.seed()),
                    ..old(self)@
                })
                &&& old(self)@.seed != UNSET_SEED ==> final(self)@.noise.seed() == low_bits(
                    old(self)@.seed,
                )
                &&& old(self)@.seed == UNSET_SEED ==> final(self)@.noise.seed() < SEED_RANGE
            },
            forall|kind: EffectType|
                action == ClickAction::Selected(kind) ==> final(self)@ == (World {
                    selected: kind,
                    sounds: old(self)@.sounds.push(SoundCue::ButtonClick),
                    ..old(self)@
                }),
            action == ClickAction::Spawned ==> {
                &&& final(self)@.effects.len() == old(self)@.effects.len() + 1
                &&& final(self)@.effects.last().direction < FULL_TURN
                &&& final(self)@ == (World {
                    effects: old(self)@.effects.push(
                        fresh_effect(
                            old(self)@.selected,
                            x,
                            y,
                            final(self)@.effects.last().direction as int,
                            now,
                        ),
                    ),
                    ..old(self)@
                })
            },
    {
        let action = click_target(left, x, y);
        match action {
            ClickAction::Ignored => {},
            ClickAction::Reset => {
                self.play_sound(SoundCue::ButtonClick);
                let seed = self.reset();
                proof {
                    lemma_generator_steps(old(self)@.noise, seed, old(self)@.noise.current());
                }
            },
            ClickAction::Selected(kind) => {
                self.play_sound(SoundCue::ButtonClick);
                self.select_effect(kind);
            },
            ClickAction::Spawned => {
                self.spawn_effect(x, y, now);
            },
        }
        action
    }

    /// The configuration that the state was made from.
    pub fn config(&self) -> (config: &Config)
        ensures
            *config == self@.config,
    {
        &self.config
    }

    /// The terrain, column by column.
    pub fn terrain(&self) -> (terrain: &Vec<Vec<Cell>>)
        ensures
            grid_of(terrain@) == self@.grid,
    {
        &self.terrain
    }

    /// The cell in column `x` and row `y`, if there is one.
    pub fn cell(&self, x: usize, y: usize) -> (cell: Option<Cell>)
        ensures
            cell == if in_grid(self@.grid, x as int, y as int) {
                Some(cell_at(self@.grid, x as int, y as int))
            } else {
                None
            },
    {
        if x < self.terrain.len() && y < self.terrain[x].len() {
            Some(self.terrain[x][y])
        } else {
            None
        }
    }

    /// The effects, oldest first.
    pub fn effects(&self) -> (effects: &Vec<Effect>)
        ensures
            effects@ == self@.effects,
    {
        &self.effects
    }

    /// The kind of effect that a click creates.
    pub fn selected_effect(&self) -> (kind: EffectType)
        ensures
            kind == self@.selected,
    {
        self.selected_effect
    }

    /// The spatial index.
    pub fn quadtree(&self) -> (tree: &QuadTree)
        ensures
            tree@ == self@.tree,
            self.wf() ==> tree.wf(),
    {
        &self.terrain_quadtree
    }

    /// Whether the index may no longer match the terrain.
    pub fn quadtree_dirty(&self) -> (dirty: bool)
        ensures
            dirty == self@.dirty,
    {
        self.quadtree_dirty
    }

    /// Whether the introduction is showing.
    pub fn show_intro(&self) -> (showing: bool)
        ensures
            showing == self@.show_intro,
    {
        self.show_intro
    }

    /// Time for which the introduction still shows, in milliseconds.
    pub fn intro_timer(&self) -> (left: u64)
        ensures
            left == self@.intro_timer,
    {
        self.intro_timer
    }

    /// The configured seed.
    pub fn seed(&self) -> (seed: i64)
        ensures
            seed == self@.seed,
    {
        self.seed
    }

    /// The noise sources.
    pub fn noise_generator(&self) -> (noise: &NoiseGenerator)
        ensures
            *noise == self@.noise,
    {
        &self.noise_generator
    }

    /// The sounds asked for and not yet taken.
    pub fn sounds(&self) -> (sounds: &Vec<SoundCue>)
        ensures
            sounds@ == self@.sounds,
    {
        &self.sounds
    }

    /// Hands over the sounds asked for since they were last taken, oldest
    /// first, so that each is played once.
    pub fn take_sounds(&mut self) -> (sounds: Vec<SoundCue>)
        ensures
            sounds@ == old(self)@.sounds,
            final(self)@ == (World { sounds: Seq::empty(), ..old(self)@ }),
            old(self).wf() ==> final(self).wf(),
    {
        let mut sounds: Vec<SoundCue> = Vec::new();
        sounds.append(&mut self.sounds);
        sounds
    }
}

} // verus!
