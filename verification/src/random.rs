//! The one source of chance: where a new wall enters.

use rand::Rng;
use vstd::prelude::*;

verus! {

/// Draws a number from `low` up to, but not including, `high`.
///
/// This hands the half-open range to `rand::Rng::gen_range` on the generator
/// that `rand::thread_rng` returns. Taken on trust: that the number drawn lies
/// in the range. An empty range, on which `gen_range` panics, is left out.
/// Nothing is said about which number of the range comes: two calls may
/// differ. The generator is seeded by the system on its first use in a
/// thread, and panics there if the system has no randomness to give.
#[verifier::external_body]
pub(crate) fn random_between(low: usize, high: usize) -> (drawn: usize)
    requires
        low < high,
    ensures
        low <= drawn < high,
{
    rand::thread_rng().gen_range(low..high)
}

} // verus!
