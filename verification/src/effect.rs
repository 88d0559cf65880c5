//! Moving effects and the arithmetic of their headings.
//!
//! A heading is a whole number of steps, of which `FULL_TURN` make one turn,
//! so that a step is very nearly a thousandth of a radian. Heading 0 points
//! along the positive x axis, and headings grow towards the positive y axis.
//! Every operation of this module yields a heading in `0..FULL_TURN`.

use vstd::prelude::*;

verus! {

/// Steps in a full turn.
pub const FULL_TURN: u32 = 6284;

/// Steps in half a turn.
pub const HALF_TURN: u32 = 3142;

/// Steps in a quarter of a turn.
pub const QUARTER_TURN: u32 = 1571;

/// What an effect is.
#[derive(Debug, Copy, Clone, PartialEq, Eq, Structural)]
pub enum EffectType {
    /// A bubble, which may once split in two.
    Bubbles,
    /// A bubble that may once burst into a cluster.
    MoreBubbles,
    /// A bolt that destroys whatever it touches.
    Lightning,
}

impl EffectType {
    /// Speed of an effect of this kind, in pixels per second.
    pub open spec fn speed_spec(self) -> i64 {
        match self {
            EffectType::Lightning => 200,
            _ => 50,
        }
    }

    /// Points of damage that an effect of this kind does to a cell it
    /// touches.
    pub open spec fn damage_spec(self) -> u32 {
        match self {
            EffectType::Bubbles => 5,
            EffectType::MoreBubbles => 5,
            EffectType::Lightning => 10,
        }
    }

    /// Whether an effect of this kind destroys a cell whatever durability
    /// the cell has left.
    pub open spec fn ignores_durability_spec(self) -> bool {
        self == EffectType::Lightning
    }

    /// Speed of an effect of this kind, in pixels per second.
    #[verifier::when_used_as_spec(speed_spec)]
    pub fn speed(self) -> (speed: i64)
        ensures
            speed == self.speed_spec(),
    {
        match self {
            EffectType::Lightning => 200,
            _ => 50,
        }
    }

    /// Points of damage that an effect of this kind does to a cell it
    /// touches.
    #[verifier::when_used_as_spec(damage_spec)]
    pub fn damage(self) -> (points: u32)
        ensures
            points == self.damage_spec(),
    {
        match self {
            EffectType::Bubbles => 5,
            EffectType::MoreBubbles => 5,
            EffectType::Lightning => 10,
        }
    }

    /// Whether an effect of this kind destroys a cell whatever durability
    /// the cell has left.
    #[verifier::when_used_as_spec(ignores_durability_spec)]
    pub fn ignores_durability(self) -> (ignores: bool)
        ensures
            ignores == self.ignores_durability_spec(),
    {
        match self {
            EffectType::Lightning => true,
            _ => false,
        }
    }
}

/// The heading `angle` brought into `0..FULL_TURN`.
pub open spec fn normalized(angle: int) -> int {
    angle % (FULL_TURN as int)
}

/// The heading `heading` mirrored at a wall that bounds the arena in x:
/// half a turn minus the heading.
pub open spec fn mirrored_in_x(heading: int) -> int {
    normalized(HALF_TURN - heading)
}

/// The heading `heading` mirrored at a wall that bounds the arena in y: the
/// heading negated.
pub open spec fn mirrored_in_y(heading: int) -> int {
    normalized(-heading)
}

/// The heading `heading` turned by `by` steps.
pub open spec fn turned(heading: int, by: int) -> int {
    normalized(heading + by)
}

/// Brings a heading into `0..FULL_TURN`.
pub fn normalize(heading: u32) -> (out: u32)
    ensures
        out == normalized(heading as int),
        out < FULL_TURN,
{
    heading % FULL_TURN
}

/// Half a turn minus `heading`.
pub fn mirror_in_x(heading: u32) -> (out: u32)
    ensures
        out == mirrored_in_x(heading as int),
        out < FULL_TURN,
{
    (HALF_TURN + FULL_TURN - heading % FULL_TURN) % FULL_TURN
}

/// `heading` negated.
pub fn mirror_in_y(heading: u32) -> (out: u32)
    ensures
        out == mirrored_in_y(heading as int),
        out < FULL_TURN,
{
    (FULL_TURN - heading % FULL_TURN) % FULL_TURN
}

/// `heading` turned by `by - back` steps, for a turn `by` and a turn back
/// `back` of less than a full turn each.
pub fn turn(heading: u32, by: u32, back: u32) -> (out: u32)
    requires
        by < FULL_TURN,
        back < FULL_TURN,
    ensures
        out == turned(heading as int, by - back),
        out < FULL_TURN,
{
    (heading % FULL_TURN + by + FULL_TURN - back) % FULL_TURN
}

/// A moving disturbance of the terrain.
#[derive(Debug, Copy, Clone, PartialEq, Eq)]
pub struct Effect {
    /// What the effect is.
    pub effect_type: EffectType,
    /// Where the effect is, in thousandths of a pixel.
    pub position: (i64, i64),
    /// Heading of the effect's movement.
    pub direction: u32,
    /// Time at which the effect came into being, in milliseconds.
    pub started_at: u64,
    /// Whether the effect has had its children.
    pub spawned: bool,
}

impl Effect {
    /// The effect lies on or beyond a wall that bounds the arena in x.
    pub open spec fn beyond_x(self, terrain_width: i64) -> bool {
        self.position.0 <= 0 || self.position.0 >= terrain_width
    }

    /// The effect lies on or beyond a wall that bounds the arena in y.
    pub open spec fn beyond_y(self, terrain_height: i64) -> bool {
        self.position.1 <= 0 || self.position.1 >= terrain_height
    }

    /// The heading after the walls of an arena of the given extent have
    /// turned the effect back: mirrored in x where the effect is beyond a
    /// wall in x, then mirrored in y where it is beyond a wall in y.
    pub open spec fn bounced_heading(self, terrain_width: i64, terrain_height: i64) -> int {
        let after_x = if self.beyond_x(terrain_width) {
            mirrored_in_x(self.direction as int)
        } else {
            self.direction as int
        };
        if self.beyond_y(terrain_height) {
            mirrored_in_y(after_x)
        } else {
            after_x
        }
    }

    /// Turns the effect back at the walls of the arena.
    pub fn bounce(&mut self, terrain_width: i64, terrain_height: i64)
        ensures
            final(self).direction == old(self).bounced_heading(terrain_width, terrain_height),
            final(self).effect_type == old(self).effect_type,
            final(self).position == old(self).position,
            final(self).started_at == old(self).started_at,
            final(self).spawned == old(self).spawned,
    {
        if self.position.0 <= 0 || self.position.0 >= terrain_width {
            self.direction = mirror_in_x(self.direction);
        }
        if self.position.1 <= 0 || self.position.1 >= terrain_height {
            self.direction = mirror_in_y(self.direction);
        }
    }
}

/// At a wall in x a heading of zero becomes half a turn and a heading of a
/// quarter turn stays a quarter turn; mirroring twice gives the heading
/// back.
pub proof fn lemma_mirror_in_x(heading: int)
    ensures
        mirrored_in_x(0) == HALF_TURN,
        mirrored_in_x(QUARTER_TURN as int) == QUARTER_TURN,
        mirrored_in_x(mirrored_in_x(heading)) == normalized(heading),
{
}

/// An effect on or beyond a wall in x, and within the walls in y, leaves the
/// wall with half a turn minus its heading.
pub proof fn lemma_wall_in_x_mirrors(effect: Effect, terrain_width: i64, terrain_height: i64)
    requires
        effect.beyond_x(terrain_width),
        !effect.beyond_y(terrain_height),
    ensures
        effect.bounced_heading(terrain_width, terrain_height) == mirrored_in_x(
            effect.direction as int,
        ),
        effect.direction == 0 ==> effect.bounced_heading(terrain_width, terrain_height)
            == HALF_TURN,
        effect.direction == QUARTER_TURN ==> effect.bounced_heading(terrain_width, terrain_height)
            == QUARTER_TURN,
{
}

} // verus!
