//! The two places where chance enters the game. Nothing here is proved: each
//! contract says what the `rand` crate's source shows of every outcome.

use vstd::prelude::*;
use rand::seq::SliceRandom;
use rand::Rng;

verus! {

/// Calls `rand::seq::SliceRandom::shuffle` on the vector's slice, with the
/// thread's generator. The method does nothing but swap pairs of elements, so
/// the vector holds afterwards what it held before, each element as often, in
/// an order that nothing is claimed of.
#[verifier::external_body]
pub(crate) fn shuffle<T>(items: &mut Vec<T>)
    ensures
        final(items)@.to_multiset() == old(items)@.to_multiset(),
{
    items.shuffle(&mut rand::thread_rng());
}

/// Calls `rand::Rng::gen_range` on the half-open range from `low` to `high`,
/// with the thread's generator. The method panics on an empty range, which
/// `requires` leaves out, and returns a value of the range.
#[verifier::external_body]
pub(crate) fn random_below(low: u64, high: u64) -> (value: u64)
    requires
        low < high,
    ensures
        low <= value < high,
{
    rand::thread_rng().gen_range(low..high)
}

} // verus!
