//! Random numbers, drawn from the `rand` crate.

use rand::Rng;
use vstd::prelude::*;

verus! {

/// Draws a number from `low..=high` with `rand::Rng::gen_range` on the
/// generator that `rand::thread_rng` hands out.
///
/// The contract is trusted, not proved. It claims what holds of every draw:
/// the number lies within the range. `gen_range` panics on an empty range,
/// which `low <= high` rules out. The generator is seeded from the
/// operating system on its first use in a thread and panics if that fails.
#[verifier::external_body]
pub(crate) fn random_in_range(low: usize, high: usize) -> (n: usize)
    requires
        low <= high,
    ensures
        low <= n <= high,
{
    rand::thread_rng().gen_range(low..=high)
}

} // verus!
