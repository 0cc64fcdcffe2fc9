use rand::seq::SliceRandom;
use vstd::prelude::*;

verus! {

/// Puts the items of `v` in a random order with `rand`'s `SliceRandom::shuffle`, driven by
/// `rand::thread_rng()`. The source is a Fisher–Yates pass that only swaps items, so every
/// outcome holds the same items, each as often; which order comes out is left unsaid, as it
/// rests on chance. (`thread_rng` panics only if the operating system cannot seed it.)
#[verifier::external_body]
pub(crate) fn shuffle_in_place<T>(v: &mut Vec<T>)
    ensures
        final(v)@.to_multiset() == old(v)@.to_multiset(),
{
    v.shuffle(&mut rand::thread_rng());
}

} // verus!
