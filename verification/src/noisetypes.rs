//! The noise algorithms that terrain generation can draw on.

use vstd::prelude::*;

verus! {

/// A noise algorithm.
#[derive(Debug, Clone, Copy, PartialEq, Eq, Structural)]
pub enum NoiseType {
    Perlin,
    Fbm,
    Simplex,
}

impl NoiseType {
    /// The algorithm's name as shown to a user.
    pub open spec fn name_spec(self) -> Seq<char> {
        match self {
            NoiseType::Perlin => "Perlin"@,
            NoiseType::Fbm => "Fractal Brownian Motion"@,
            NoiseType::Simplex => "Simplex"@,
        }
    }

    /// `name` is one of the names by which an algorithm is selected:
    /// "perlin", "fbm" or "simplex".
    pub open spec fn is_selector(name: Seq<char>) -> bool {
        name == "perlin"@ || name == "fbm"@ || name == "simplex"@
    }

    /// The algorithm that `name` selects: the first of them, Perlin, where
    /// the name selects none.
    pub open spec fn selected_by(name: Seq<char>) -> NoiseType {
        if name == "fbm"@ {
            NoiseType::Fbm
        } else if name == "simplex"@ {
            NoiseType::Simplex
        } else {
            NoiseType::Perlin
        }
    }

    /// The algorithm that `name` selects, and whether the name selects one.
    /// A name that selects none gives Perlin, so that the caller can go on,
    /// with a warning.
    pub fn from_name(name: &String) -> (selection: (NoiseType, bool))
        ensures
            selection.0 == Self::selected_by(name@),
            selection.1 == Self::is_selector(name@),
    {
        if *name == "fbm".to_string() {
            (NoiseType::Fbm, true)
        } else if *name == "simplex".to_string() {
            (NoiseType::Simplex, true)
        } else if *name == "perlin".to_string() {
            (NoiseType::Perlin, true)
        } else {
            (NoiseType::Perlin, false)
        }
    }

    /// The algorithm's name as shown to a user.
    pub fn name(&self) -> (text: String)
        ensures
            text@ == self.name_spec(),
    {
        match self {
            NoiseType::Perlin => "Perlin".to_string(),
            NoiseType::Fbm => "Fractal Brownian Motion".to_string(),
            NoiseType::Simplex => "Simplex".to_string(),
        }
    }
}

} // verus!
