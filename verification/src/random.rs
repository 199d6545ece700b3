use vstd::prelude::*;

verus! {

/// Relies on rand's `Rng::gen_ratio` on the thread-local generator: a
/// Bernoulli draw that is true with probability `numerator / denominator`.
/// Its documentation guarantees the draw is always true when the ratio is 1
/// and always false when the numerator is 0, and that the call panics only
/// when the denominator is 0 or the numerator exceeds it.
#[verifier::external_body]
pub(crate) fn random_ratio(numerator: u32, denominator: u32) -> (r: bool)
    requires
        0 < denominator,
        numerator <= denominator,
    ensures
        numerator == denominator ==> r,
        numerator == 0 ==> !r,
{
    rand::Rng::gen_ratio(&mut rand::thread_rng(), numerator, denominator)
}

/// Relies on rand's `Rng::gen_range` on the thread-local generator, over an
/// inclusive `u8` range: a uniform draw that lies within the given bounds.
/// The call panics on an empty range, so the bounds must be ordered.
#[verifier::external_body]
pub(crate) fn random_in_range(min: u8, max: u8) -> (r: u8)
    requires
        min <= max,
    ensures
        min <= r <= max,
{
    rand::Rng::gen_range(&mut rand::thread_rng(), min..=max)
}

} // verus!
