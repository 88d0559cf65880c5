//! Terrain materials.

use vstd::prelude::*;

verus! {

/// Substance a terrain cell is made of.
#[derive(Debug, Clone, Copy, PartialEq, Eq, Structural)]
pub enum Material {
    /// Empty space: nothing left to destroy.
    Air,
    /// Soft ground.
    Grass,
    /// Hard ground.
    Rock,
}

} // verus!
