//! The one source of randomness the library consumes: a uniform sample from
//! a closed integer range.

use rand::RngExt;
use vstd::prelude::*;

verus! {

/// Relies on rand's `RngExt::random_range` over an inclusive integer range:
/// for a non-empty range the sample always lies within it. Nothing more is
/// assumed of a random value.
#[verifier::external_body]
pub(crate) fn sample_uniform(low: usize, high: usize) -> (r: usize)
    requires
        low <= high,
    ensures
        low <= r <= high,
{
    rand::rng().random_range(low..=high)
}

} // verus!
