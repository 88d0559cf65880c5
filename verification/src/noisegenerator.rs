//! Bookkeeping for the noise sources behind terrain generation.
//!
//! One noise source exists per algorithm at all times. A source is a function
//! of the seed it was last built from, so this module records that seed for
//! each algorithm together with the algorithm that is in use. Sampling a
//! source yields fractional values and is left to the caller, who builds the
//! source from `noise_type()` and `active_seed()`.

use vstd::prelude::*;
use crate::noisetypes::NoiseType;

verus! {

/// The seeds of the three noise sources and the algorithm in use.
#[derive(Debug, Clone, Copy, PartialEq, Eq, Structural)]
pub struct NoiseGenerator {
    seed: u32,
    fbm: u32,
    simplex: u32,
    perlin: u32,
    current_type: NoiseType,
}

impl NoiseGenerator {
    /// The seed most recently handed to `new` or `generate`.
    pub closed spec fn seed(self) -> u32 {
        self.seed
    }

    /// The algorithm in use.
    pub closed spec fn current(self) -> NoiseType {
        self.current_type
    }

    /// The seed that the source of `kind` was last built from.
    pub closed spec fn seed_of(self, kind: NoiseType) -> u32 {
        match kind {
            NoiseType::Fbm => self.fbm,
            NoiseType::Perlin => self.perlin,
            NoiseType::Simplex => self.simplex,
        }
    }

    /// The generator with all three sources built from `seed` and `kind` in
    /// use.
    pub closed spec fn fresh(kind: NoiseType, seed: u32) -> NoiseGenerator {
        NoiseGenerator { seed, fbm: seed, simplex: seed, perlin: seed, current_type: kind }
    }

    /// The generator with the source of the algorithm in use rebuilt from
    /// `seed`.
    pub closed spec fn reseeded(self, seed: u32) -> NoiseGenerator {
        match self.current_type {
            NoiseType::Fbm => NoiseGenerator { seed, fbm: seed, ..self },
            NoiseType::Perlin => NoiseGenerator { seed, perlin: seed, ..self },
            NoiseType::Simplex => NoiseGenerator { seed, simplex: seed, ..self },
        }
    }

    /// The generator with `kind` in use.
    pub closed spec fn switched(self, kind: NoiseType) -> NoiseGenerator {
        NoiseGenerator { current_type: kind, ..self }
    }

    /// Builds all three sources from `seed` and selects `noise_type`.
    pub fn new(noise_type: NoiseType, seed: u32) -> (generator: NoiseGenerator)
        ensures
            generator == NoiseGenerator::fresh(noise_type, seed),
            generator.seed() == seed,
            generator.current() == noise_type,
            forall|kind: NoiseType| #[trigger] generator.seed_of(kind) == seed,
    {
        NoiseGenerator { seed, fbm: seed, simplex: seed, perlin: seed, current_type: noise_type }
    }

    /// Rebuilds the source of the algorithm in use from `seed`. The other
    /// two sources and the selection stay as they are.
    pub fn generate(&mut self, seed: u32)
        ensures
            *final(self) == old(self).reseeded(seed),
            final(self).seed() == seed,
            final(self).current() == old(self).current(),
            forall|kind: NoiseType| #[trigger]
                final(self).seed_of(kind) == if kind == old(self).current() {
                    seed
                } else {
                    old(self).seed_of(kind)
                },
    {
        self.seed = seed;
        match self.current_type {
            NoiseType::Fbm => {
                self.fbm = seed;
            },
            NoiseType::Perlin => {
                self.perlin = seed;
            },
            NoiseType::Simplex => {
                self.simplex = seed;
            },
        }
    }

    /// Selects `noise_type` without touching any source.
    pub fn set_noise_type(&mut self, noise_type: NoiseType)
        ensures
            *final(self) == old(self).switched(noise_type),
            final(self).current() == noise_type,
            final(self).seed() == old(self).seed(),
            forall|kind: NoiseType| #[trigger] final(self).seed_of(kind) == old(self).seed_of(kind),
    {
        self.current_type = noise_type;
    }

    /// The algorithm in use.
    pub fn noise_type(&self) -> (kind: NoiseType)
        ensures
            kind == self.current(),
    {
        self.current_type
    }

    /// The seed of the source in use: samples are a function of this seed,
    /// the algorithm and the coordinates.
    pub fn active_seed(&self) -> (seed: u32)
        ensures
            seed == self.seed_of(self.current()),
    {
        match self.current_type {
            NoiseType::Fbm => self.fbm,
            NoiseType::Perlin => self.perlin,
            NoiseType::Simplex => self.simplex,
        }
    }
}

/// What building, reseeding and switching do to the generator: building
/// builds every source from the one seed, reseeding rebuilds the source in
/// use and no other, and switching rebuilds none.
pub proof fn lemma_generator_steps(generator: NoiseGenerator, seed: u32, kind: NoiseType)
    ensures
        NoiseGenerator::fresh(kind, seed).current() == kind,
        NoiseGenerator::fresh(kind, seed).seed() == seed,
        forall|other: NoiseType| #[trigger]
            NoiseGenerator::fresh(kind, seed).seed_of(other) == seed,
        generator.reseeded(seed).current() == generator.current(),
        generator.reseeded(seed).seed() == seed,
        generator.reseeded(seed).seed_of(kind) == if kind == generator.current() {
            seed
        } else {
            generator.seed_of(kind)
        },
        generator.switched(kind).current() == kind,
        generator.switched(kind).seed() == generator.seed(),
        forall|other: NoiseType| #[trigger]
            generator.switched(kind).seed_of(other) == generator.seed_of(other),
{
}

/// Every source keeps its own state: switching to another algorithm,
/// reseeding there and switching back leaves the source that was in use as
/// it was, and switching away and straight back changes nothing at all.
pub proof fn lemma_sources_are_independent(generator: NoiseGenerator, away: NoiseType, seed: u32)
    ensures
        generator.switched(away).switched(generator.current()) == generator,
        away != generator.current() ==> generator.switched(away).reseeded(seed).switched(
            generator.current(),
        ).seed_of(generator.current()) == generator.seed_of(generator.current()),
        generator.switched(away).reseeded(seed).seed_of(away) == seed,
{
}

} // verus!
