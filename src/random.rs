//! The random source: uniform draws from integer ranges.

use rand::Rng;
use vstd::prelude::*;

verus! {

/// Relies on `rand::thread_rng` and `Rng::gen_range`: a value drawn from
/// `[low, high)`; `gen_range` panics on an empty range.
#[verifier::external_body]
pub(crate) fn random_in(low: u64, high: u64) -> (r: u64)
    requires
        low < high,
    ensures
        low <= r < high,
{
    rand::thread_rng().gen_range(low..high)
}

} // verus!
