//! Random choices.

use crate::sums::views;
use rand::seq::SliceRandom;
use vstd::prelude::*;

verus! {

/// Calls `rand::random` for a number. Nothing is claimed of the number.
#[verifier::external_body]
pub(crate) fn random_number() -> (number: u64) {
    rand::random::<u64>()
}

/// Calls `rand::seq::SliceRandom::shuffle` with `rand::thread_rng`. Trusted: the
/// list has the same texts as before, each as often; nothing is claimed of their
/// order.
#[verifier::external_body]
pub(crate) fn shuffle(list: &mut Vec<String>)
    ensures
        views(final(list)@).to_multiset() == views(old(list)@).to_multiset(),
{
    list.shuffle(&mut rand::thread_rng());
}

} // verus!
