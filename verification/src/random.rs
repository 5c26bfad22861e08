//! The source of chance: a seedable generator of the `rand` crate.

use rand::rngs::StdRng;
use rand::Rng;
use vstd::prelude::*;

verus! {

/// The seedable generator `rand::rngs::StdRng`. Nothing is known of what
/// it holds: it is only handed on to the calls that draw from it.
#[verifier::external_type_specification]
#[verifier::external_body]
pub struct ExStdRng(StdRng);

/// Calls `Rng::gen_ratio`: draws `true` with probability
/// `numerator / denominator`. Nothing is claimed of the outcome but what the
/// crate documents of the two certain cases; the preconditions are those
/// outside of which the call panics.
#[verifier::external_body]
pub(crate) fn flip(rng: &mut StdRng, numerator: u32, denominator: u32) -> (heads: bool)
    requires
        0 < denominator,
        numerator <= denominator,
    ensures
        numerator == denominator ==> heads,
        numerator == 0 ==> !heads,
{
    rng.gen_ratio(numerator, denominator)
}

/// Calls `Rng::gen_range` on the half-open range from zero to `bound`: the
/// draw lies in that range. The call panics on an empty range, which the
/// precondition leaves out.
#[verifier::external_body]
pub(crate) fn below(rng: &mut StdRng, bound: u64) -> (draw: u64)
    requires
        0 < bound,
    ensures
        draw < bound,
{
    rng.gen_range(0..bound)
}

} // verus!
