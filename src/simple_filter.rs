//! A Bloom filter whose hash producers sit behind a shared handle, so that
//! filters built to be combined can use the very same producers.

use vstd::prelude::*;
use std::collections::hash_map::RandomState;
use std::hash::{BuildHasher, Hash};
use std::rc::Rc;
use crate::hashing::digests_of;
use crate::traits::filter::{BinaryBloomFilter, BloomFilter, BloomFilterDelete, SpectralBloomFilter};
use crate::traits::{BinaryBloomSet, BloomSet, BloomSetDelete, SpectralBloomSet, zeros};

verus! {

/// A Bloom filter with storage `B` and hash producers of type `S`, held
/// behind a reference-counted handle. Its operations are those of the
/// filter traits that `B` makes available.
#[derive(Debug, Clone, PartialEq)]
pub struct SimpleBloomFilter<B, S = RandomState> {
    hashers: Rc<Vec<S>>,
    set: B,
}

impl<B: BloomSet, S: BuildHasher> SimpleBloomFilter<B, S> {
    /// The hash producers, in order.
    pub closed spec fn hasher_seq(&self) -> Seq<S> {
        (*self.hashers)@
    }

    /// Creates a filter with `n_hashers` default hash producers and
    /// `n_counters` counters at zero.
    pub fn new(n_hashers: usize, n_counters: usize) -> (r: Self)
        where
            S: Default,
        requires
            n_hashers > 0,
            0 < n_counters <= B::max_size(),
        ensures
            r.num_hashers() == n_hashers,
            r.hasher_seq().len() == n_hashers,
            r.storage().counts() == zeros(n_counters as nat),
    {
        let mut hashers: Vec<S> = Vec::new();
        while hashers.len() < n_hashers
            invariant
                hashers.len() <= n_hashers,
            decreases n_hashers - hashers.len(),
        {
            hashers.push(S::default());
        }
        SimpleBloomFilter::with_hashers(Rc::new(hashers), n_counters)
    }

    /// Creates a filter with the given hash producers and `n_counters`
    /// counters at zero.
    pub fn with_hashers(hashers: Rc<Vec<S>>, n_counters: usize) -> (r: Self)
        requires
            (*hashers)@.len() > 0,
            0 < n_counters <= B::max_size(),
        ensures
            r.num_hashers() == (*hashers)@.len(),
            r.hasher_seq() == (*hashers)@,
            r.storage().counts() == zeros(n_counters as nat),
    {
        SimpleBloomFilter { hashers, set: B::new(n_counters) }
    }

    /// Returns the hash producers and the storage of the filter.
    pub fn into_inner(self) -> (r: (Rc<Vec<S>>, B))
        ensures
            (*r.0)@ == self.hasher_seq(),
            r.1 == self.storage(),
    {
        (self.hashers, self.set)
    }

    /// The handle to the hash producers.
    pub fn hashers(&self) -> (r: &Rc<Vec<S>>)
        ensures
            (**r)@ == self.hasher_seq(),
    {
        &self.hashers
    }

    /// The digest of `val` under each hash producer.
    fn digests<T: Hash>(&self, val: &T) -> (r: Vec<u64>)
        ensures
            r.len() == self.num_hashers(),
    {
        digests_of(&*self.hashers, val)
    }
}

impl<B: BloomSet, S: BuildHasher> BloomFilter for SimpleBloomFilter<B, S> {
    type Set = B;

    type Hasher = S;

    closed spec fn storage(&self) -> B {
        self.set
    }

    closed spec fn num_hashers(&self) -> nat {
        (*self.hashers)@.len()
    }

    fn counters(&self) -> (r: &B) {
        &self.set
    }

    fn insert<T: Hash>(&mut self, val: &T) {
        let d = self.digests(val);
        crate::ops::insert_digests(&mut self.set, &d);
    }

    fn contains<T: Hash>(&self, val: &T) -> (r: bool) {
        let d = self.digests(val);
        crate::ops::contains_digests(&self.set, &d)
    }

    fn clear(&mut self) {
        self.set.clear()
    }
}

impl<B: BloomSetDelete, S: BuildHasher> BloomFilterDelete for SimpleBloomFilter<B, S> {
    fn remove<T: Hash>(&mut self, val: &T) {
        let d = self.digests(val);
        crate::ops::remove_digests(&mut self.set, &d);
    }
}

impl<B: BinaryBloomSet, S: BuildHasher> BinaryBloomFilter for SimpleBloomFilter<B, S> {
    fn union<Other>(&mut self, other: &Other)
        where
            Other: BloomFilter<Set = B, Hasher = S>,
    {
        self.set.union(other.counters());
    }

    fn intersect<Other>(&mut self, other: &Other)
        where
            Other: BloomFilter<Set = B, Hasher = S>,
    {
        self.set.intersect(other.counters());
    }
}

impl<B: SpectralBloomSet, S: BuildHasher> SpectralBloomFilter for SimpleBloomFilter<B, S> {
    fn contains_more_than<T: Hash>(&self, val: &T, count: &B::Count) -> (r: bool) {
        let d = self.digests(val);
        crate::ops::exceeds_digests(&self.set, &d, count)
    }

    fn find_count<T: Hash>(&self, val: &T) -> (r: &B::Count) {
        let d = self.digests(val);
        crate::ops::min_count_digests(&self.set, &d)
    }
}

} // verus!
