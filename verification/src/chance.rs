//! Where chance enters: the random number generator of the `rand` crate.
//! Nothing here is proved; the contracts say what `rand` documents.

use rand::Rng;
use rand::rngs::ThreadRng;
use rand::seq::SliceRandom;
use vstd::prelude::*;

verus! {

/// `rand::rngs::ThreadRng`, the random number generator of the current
/// thread. Nothing is known of what it holds.
#[verifier::external_type_specification]
#[verifier::external_body]
pub struct ExThreadRng(rand::rngs::ThreadRng);

/// `rand::thread_rng` hands out the generator of the current thread.
/// Nothing is claimed of it.
pub assume_specification[ rand::thread_rng ]() -> (rng: rand::rngs::ThreadRng)
;

/// `rand::Rng::gen_range` with the lower bound 0: some index below `high`.
/// The call panics on an empty range, so `high` must be positive. Which
/// index comes back is up to chance: two calls may differ.
#[verifier::external_body]
pub(crate) fn gen_index(rng: &mut ThreadRng, high: usize) -> (index: usize)
    requires
        high > 0,
    ensures
        index < high,
{
    rng.gen_range(0, high)
}

/// `rand::seq::SliceRandom::shuffle` reorders the items in place by swapping
/// them: afterwards the vector holds the same items, each as often as
/// before. In which order is up to chance.
#[verifier::external_body]
pub(crate) fn shuffle<T>(items: &mut Vec<T>, rng: &mut ThreadRng)
    ensures
        final(items)@.to_multiset() == old(items)@.to_multiset(),
{
    items.shuffle(rng)
}

} // verus!
