//! The library's only sources of randomness: thin trusted wrappers over
//! the rand crate.  Each contract states only what holds of every
//! possible outcome; the callers are verified for every value that can
//! come back.

use rand::seq::SliceRandom;
use rand::Rng;
use vstd::prelude::*;

verus! {

/// Relies on rand's `SliceRandom::shuffle`: a Fisher-Yates pass of
/// in-place swaps, so the vector afterwards holds exactly the elements
/// it held before, in some order.
#[verifier::external_body]
pub(crate) fn shuffle<T>(v: &mut Vec<T>)
    ensures
        final(v)@.to_multiset() == old(v)@.to_multiset(),
        final(v)@.len() == old(v)@.len(),
{
    let mut rng = rand::thread_rng();
    v.shuffle(&mut rng);
}

/// Relies on rand's `Rng::gen_range`: a draw from `0..len`, defined (and
/// panic-free) only for a non-empty range.
#[verifier::external_body]
pub(crate) fn random_index(len: usize) -> (r: usize)
    requires
        len > 0,
    ensures
        r < len,
{
    rand::thread_rng().gen_range(0..len)
}

} // verus!
