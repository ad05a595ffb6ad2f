//! Draws from the thread-local generator of the `rand` crate.
//!
//! That generator is seeded from the operating system when a thread first
//! uses it, and `rand` panics if the seeding fails. No contract here can
//! rule that out: the two functions below are believed for a thread whose
//! generator could be set up.

use vstd::prelude::*;

verus! {

/// Calls `rand::Rng::random_range` on `rand::rng()` with the half-open range
/// `lo..hi`. The crate documents that the value lies in the range and that an
/// empty range panics; which value comes is left to chance.
#[verifier::external_body]
pub(crate) fn random_in(lo: i32, hi: i32) -> (r: i32)
    requires
        lo < hi,
    ensures
        lo <= r < hi,
{
    rand::Rng::random_range(&mut rand::rng(), lo..hi)
}

/// Calls `rand::Rng::random_ratio` on `rand::rng()`: true with probability
/// `numerator / denominator`. The crate documents a panic for a zero
/// denominator or a numerator above it, that a zero numerator always gives
/// false and that equal arguments always give true.
#[verifier::external_body]
pub(crate) fn random_ratio(numerator: u32, denominator: u32) -> (r: bool)
    requires
        denominator > 0,
        numerator <= denominator,
    ensures
        numerator == 0 ==> !r,
        numerator == denominator ==> r,
{
    rand::Rng::random_ratio(&mut rand::rng(), numerator, denominator)
}

} // verus!
