use vstd::prelude::*;
use rand::Rng;

verus! {

/// Relies on rand's `Rng::gen_ratio` on the thread-local generator: a random
/// `bool` that is `true` with probability `numerator / denominator`. It panics
/// when `denominator` is zero or `numerator` exceeds it; with a zero numerator
/// it never yields `true`, with `numerator == denominator` always.
#[verifier::external_body]
pub(crate) fn bernoulli(numerator: u32, denominator: u32) -> (r: bool)
    requires
        0 < denominator,
        numerator <= denominator,
    ensures
        numerator == 0 ==> !r,
        numerator == denominator ==> r,
{
    rand::thread_rng().gen_ratio(numerator, denominator)
}

} // verus!
