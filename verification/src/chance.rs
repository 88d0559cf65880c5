//! Random draws.

use vstd::prelude::*;

verus! {

/// A number drawn from `0..bound` by `rand::Rng::random_range` on the
/// thread's generator. Nothing is claimed of the draw but that it lies in
/// that range; an empty range, on which the call panics, is left out.
#[verifier::external_body]
pub(crate) fn random_below(bound: u32) -> (drawn: u32)
    requires
        bound > 0,
    ensures
        drawn < bound,
{
    rand::Rng::random_range(&mut rand::rng(), 0..bound)
}

/// A yes with `numerator` chances in `denominator`, drawn by
/// `rand::Rng::random_ratio` on the thread's generator. The answer is
/// certain only at the two ends; ratios on which the call panics are left
/// out.
#[verifier::external_body]
pub(crate) fn random_ratio(numerator: u32, denominator: u32) -> (yes: bool)
    requires
        denominator > 0,
        numerator <= denominator,
    ensures
        numerator == denominator ==> yes,
        numerator == 0 ==> !yes,
{
    rand::Rng::random_ratio(&mut rand::rng(), numerator, denominator)
}

} // verus!
