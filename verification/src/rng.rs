//! Trusted boundary to the `rand` crate.  Nothing here is verified; each
//! wrapper states only what the crate's source shows of every outcome.

use vstd::prelude::*;

verus! {

/// Relies on rand::random_range over `lo..hi`: it panics only when the range
/// is empty, and returns a value of the half-open range.
#[verifier::external_body]
pub(crate) fn rand_in(lo: i64, hi: i64) -> (r: i64)
    requires
        lo < hi,
    ensures
        lo <= r < hi,
{
    rand::random_range(lo..hi)
}

/// Relies on rand::random with the standard uniform distribution on u128;
/// nothing can be promised of a random draw.
#[verifier::external_body]
pub(crate) fn rand_bits() -> u128 {
    rand::random::<u128>()
}

} // verus!
