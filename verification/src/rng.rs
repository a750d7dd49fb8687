//! The external randomness seam used by [`crate::Game`]'s random fill.

use vstd::prelude::*;

verus! {

/// Relies on `rand::random_ratio(numerator, denominator)`: one Bernoulli
/// draw from the thread-local generator, `true` with probability
/// `numerator / denominator`. Its documentation guarantees the endpoints —
/// with `numerator == 0` the result is always `false`, and with
/// `numerator == denominator` it is always `true` — and that it panics
/// exactly when `denominator == 0` or `numerator > denominator`, which the
/// precondition rules out. Nothing is promised of any other ratio: the
/// result is random.
#[verifier::external_body]
pub(crate) fn sample_ratio(numerator: u32, denominator: u32) -> (r: bool)
    requires
        0 < denominator,
        numerator <= denominator,
    ensures
        numerator == 0 ==> !r,
        numerator == denominator ==> r,
{
    rand::random_ratio(numerator, denominator)
}

} // verus!
