//! Digests of values, from the hash producers of a filter.

use vstd::prelude::*;
use std::hash::{BuildHasher, Hash};

verus! {

/// Relies on `BuildHasher::hash_one`: the digest of `val` under a hasher
/// that `s` builds. Hash producers such as `RandomState` are seeded per
/// process, so nothing is stated of the digest.
#[verifier::external_body]
pub(crate) fn hash_one<S: BuildHasher, T: Hash>(s: &S, val: &T) -> u64 {
    s.hash_one(val)
}

/// The digest of `val` under each hash producer, in order.
pub fn digests_of<S: BuildHasher, T: Hash>(hashers: &Vec<S>, val: &T) -> (r: Vec<u64>)
    ensures
        r.len() == hashers.len(),
{
    let mut r: Vec<u64> = Vec::new();
    let mut j: usize = 0;
    while j < hashers.len()
        invariant
            j <= hashers.len(),
            r.len() == j,
        decreases hashers.len() - j,
    {
        r.push(hash_one(&hashers[j], val));
        j += 1;
    }
    r
}

} // verus!
