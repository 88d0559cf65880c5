//! What a press of a mouse button asks of the simulation.
//!
//! A row of four buttons lies along the top of the window: one that resets
//! the terrain, then one for each kind of effect. Lengths are whole numbers
//! of units, a thousand to the pixel.

use vstd::prelude::*;
use crate::effect::EffectType;
use crate::quadtree::Rect;

verus! {

/// Left edge of the first button, in units.
pub const BUTTON_LEFT: i64 = 10000;

/// Top edge of the buttons, in units.
pub const BUTTON_TOP: i64 = 10000;

/// Width of a button, in units.
pub const BUTTON_WIDTH: i64 = 100000;

/// Height of a button, in units.
pub const BUTTON_HEIGHT: i64 = 40000;

/// Gap between two buttons, in units.
pub const BUTTON_SPACING: i64 = 10000;

/// Distance from the left edge of one button to that of the next, in units:
/// a button and a gap.
pub const BUTTON_PITCH: i64 = 110000;

/// What a press of a mouse button asks for.
#[derive(Debug, Clone, Copy, PartialEq, Eq, Structural)]
pub enum ClickAction {
    /// Nothing.
    Ignored,
    /// New terrain.
    Reset,
    /// Another kind of effect for the clicks to come.
    Selected(EffectType),
    /// A new effect where the mouse is.
    Spawned,
}

/// The rectangle of button number `i`, counted from the left: the reset
/// button first, then one button for each kind of effect.
pub open spec fn button(i: int) -> Rect {
    Rect {
        x: (BUTTON_LEFT + i * BUTTON_PITCH) as i64,
        y: BUTTON_TOP,
        w: BUTTON_WIDTH,
        h: BUTTON_HEIGHT,
    }
}

/// What a press of a mouse button at `(x, y)` asks for. Only the left
/// button counts. On a button it asks for what the button stands for;
/// below the row of buttons it asks for an effect; elsewhere for nothing.
pub open spec fn click_meaning(left: bool, x: i64, y: i64) -> ClickAction {
    if !left {
        ClickAction::Ignored
    } else if button(0).contains(x as int, y as int) {
        ClickAction::Reset
    } else if button(1).contains(x as int, y as int) {
        ClickAction::Selected(EffectType::Bubbles)
    } else if button(2).contains(x as int, y as int) {
        ClickAction::Selected(EffectType::MoreBubbles)
    } else if button(3).contains(x as int, y as int) {
        ClickAction::Selected(EffectType::Lightning)
    } else if y > BUTTON_TOP + BUTTON_HEIGHT {
        ClickAction::Spawned
    } else {
        ClickAction::Ignored
    }
}

fn on_button(i: i64, x: i64, y: i64) -> (inside: bool)
    requires
        0 <= i <= 3,
    ensures
        inside == button(i as int).contains(x as int, y as int),
{
    let left = BUTTON_LEFT + i * BUTTON_PITCH;
    x >= left && x <= left + BUTTON_WIDTH && y >= BUTTON_TOP && y <= BUTTON_TOP + BUTTON_HEIGHT
}

/// What a press of a mouse button at `(x, y)` asks for.
pub fn click_target(left: bool, x: i64, y: i64) -> (action: ClickAction)
    ensures
        action == click_meaning(left, x, y),
{
    if !left {
        ClickAction::Ignored
    } else if on_button(0, x, y) {
        ClickAction::Reset
    } else if on_button(1, x, y) {
        ClickAction::Selected(EffectType::Bubbles)
    } else if on_button(2, x, y) {
        ClickAction::Selected(EffectType::MoreBubbles)
    } else if on_button(3, x, y) {
        ClickAction::Selected(EffectType::Lightning)
    } else if y > BUTTON_TOP + BUTTON_HEIGHT {
        ClickAction::Spawned
    } else {
        ClickAction::Ignored
    }
}

} // verus!
