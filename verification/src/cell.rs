//! One unit of terrain.

use vstd::prelude::*;
use crate::materials::Material;

verus! {

/// A terrain cell: what it is made of and how much damage it can still take.
#[derive(Debug, Clone, Copy, PartialEq, Eq, Structural)]
pub struct Cell {
    pub material: Material,
    pub durability: u32,
}

impl Cell {
    /// A cell is empty exactly when it has no durability left.
    pub open spec fn wf(self) -> bool {
        (self.material == Material::Air) <==> (self.durability == 0)
    }

    /// The empty cell.
    pub open spec fn air() -> Cell {
        Cell { material: Material::Air, durability: 0 }
    }

    /// The cell after one hit of `amount` points. An empty cell stays as it
    /// is. A hit that ignores durability, or that takes all that is left,
    /// empties the cell; any other hit lowers the durability by `amount`.
    pub open spec fn damaged(self, amount: u32, ignore_durability: bool) -> Cell {
        if self.material == Material::Air {
            self
        } else if ignore_durability || self.durability <= amount {
            Cell::air()
        } else {
            Cell { material: self.material, durability: (self.durability - amount) as u32 }
        }
    }

    /// Applies one hit to the cell.
    pub fn damage(&mut self, amount: u32, ignore_durability: bool)
        ensures
            *final(self) == old(self).damaged(amount, ignore_durability),
    {
        if self.material != Material::Air {
            if ignore_durability || self.durability <= amount {
                self.material = Material::Air;
                self.durability = 0;
            } else {
                self.durability = self.durability - amount;
            }
        }
    }
}

/// A hit leaves a well-formed cell well-formed and never adds durability.
pub proof fn lemma_damage_keeps_cells_well_formed(cell: Cell, amount: u32, ignore_durability: bool)
    requires
        cell.wf(),
    ensures
        cell.damaged(amount, ignore_durability).wf(),
        cell.damaged(amount, ignore_durability).durability <= cell.durability,
{
}

/// A hit on an empty cell changes nothing, however often it is repeated.
pub proof fn lemma_damage_on_air_is_idle(cell: Cell, amount: u32, ignore_durability: bool)
    requires
        cell.material == Material::Air,
    ensures
        cell.damaged(amount, ignore_durability) == cell,
{
}

} // verus!
