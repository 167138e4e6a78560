//! Bloom filters that are generic over their counter storage: a bit box
//! gives a classic binary filter, a boxed slice of saturating counters a
//! counting and spectral filter.

pub mod bits;
pub mod counter;
pub mod counts;
pub mod hashing;
pub mod index;
pub mod laws;
pub mod ops;
pub mod simple_filter;
pub mod traits;

use vstd::prelude::*;
use std::collections::hash_map::RandomState;
use std::hash::{BuildHasher, Hash};
use crate::counter::Counter;
use crate::hashing::digests_of;
use crate::index::{after_insert, after_remove, all_above, all_present, is_min_at, slots};
use crate::traits::{
    BinaryBloomSet, BloomSet, BloomSetDelete, SpectralBloomSet, pointwise_max, pointwise_min,
    zeros,
};

verus! {

/// A Bloom filter over storage `B`, whose hash producers are of type `S`.
/// Which operations it offers depends on the capabilities of `B`.
#[derive(Debug, Clone, PartialEq)]
pub struct BloomFilter<B, S = RandomState> {
    hashers: Vec<S>,
    set: B,
}

impl<B: BloomSet, S: BuildHasher> BloomFilter<B, S> {
    /// The counters of the storage.
    pub closed spec fn counts(&self) -> Seq<nat> {
        self.set.counts()
    }

    /// The hash producers, in order.
    pub closed spec fn hasher_seq(&self) -> Seq<S> {
        self.hashers@
    }

    /// At least one hash producer and at least one counter.
    pub open spec fn wf(&self) -> bool {
        self.hasher_seq().len() > 0 && self.counts().len() > 0
    }

    /// The positions that a value with digests `d` occupies.
    pub open spec fn positions(&self, d: Seq<u64>) -> Seq<int> {
        slots(d, self.counts().len())
    }

    /// Creates a filter with `n_hashers` default hash producers and
    /// `n_counters` counters at zero.
    pub fn new(n_hashers: usize, n_counters: usize) -> (r: Self)
        where
            S: Default,
        requires
            n_hashers > 0,
            0 < n_counters <= B::max_size(),
        ensures
            r.wf(),
            r.hasher_seq().len() == n_hashers,
            r.counts() == zeros(n_counters as nat),
    {
        let mut hashers: Vec<S> = Vec::new();
        while hashers.len() < n_hashers
            invariant
                hashers.len() <= n_hashers,
            decreases n_hashers - hashers.len(),
        {
            hashers.push(S::default());
        }
        BloomFilter::with_hashers(hashers, n_counters)
    }

    /// Creates a filter with the given hash producers and `n_counters`
    /// counters at zero.
    pub fn with_hashers(hashers: Vec<S>, n_counters: usize) -> (r: Self)
        requires
            hashers.len() > 0,
            0 < n_counters <= B::max_size(),
        ensures
            r.wf(),
            r.hasher_seq() == hashers@,
            r.counts() == zeros(n_counters as nat),
    {
        BloomFilter { hashers, set: B::new(n_counters) }
    }

    /// The hash producers of this filter.
    pub fn hashers(&self) -> (r: &[S])
        ensures
            r@ == self.hasher_seq(),
    {
        self.hashers.as_slice()
    }

    /// The digest of `val` under each hash producer.
    pub fn digests<T: Hash>(&self, val: &T) -> (r: Vec<u64>)
        ensures
            r.len() == self.hasher_seq().len(),
    {
        digests_of(&self.hashers, val)
    }

    /// Inserts the value with digests `d`: increments the counter at each of
    /// its positions.
    pub fn insert_digests(&mut self, d: &Vec<u64>)
        requires
            old(self).wf(),
        ensures
            final(self).wf(),
            final(self).hasher_seq() == old(self).hasher_seq(),
            final(self).counts() == after_insert(old(self).counts(), B::cap(), old(self).positions(d@)),
    {
        crate::ops::insert_digests(&mut self.set, d);
    }

    /// Inserts `val` into the set.
    pub fn insert<T: Hash>(&mut self, val: &T)
        requires
            old(self).wf(),
        ensures
            final(self).wf(),
            final(self).hasher_seq() == old(self).hasher_seq(),
            exists|d: Seq<u64>|
                d.len() == old(self).hasher_seq().len() && final(self).counts() == #[trigger] after_insert(
                    old(self).counts(),
                    B::cap(),
                    old(self).positions(d),
                ),
    {
        let d = self.digests(val);
        self.insert_digests(&d);
    }

    /// Whether the counter at every position of the value with digests `d`
    /// indicates presence.
    pub fn contains_digests(&self, d: &Vec<u64>) -> (r: bool)
        requires
            self.wf(),
        ensures
            r == all_present(self.counts(), self.positions(d@)),
    {
        crate::ops::contains_digests(&self.set, d)
    }

    /// Checks whether the set contains `val`.
    pub fn contains<T: Hash>(&self, val: &T) -> (r: bool)
        requires
            self.wf(),
        ensures
            exists|d: Seq<u64>|
                d.len() == self.hasher_seq().len() && r == #[trigger] all_present(
                    self.counts(),
                    self.positions(d),
                ),
    {
        let d = self.digests(val);
        self.contains_digests(&d)
    }

    /// Clears all values from the set.
    pub fn clear(&mut self)
        requires
            old(self).wf(),
        ensures
            final(self).wf(),
            final(self).hasher_seq() == old(self).hasher_seq(),
            final(self).counts() == zeros(old(self).counts().len()),
    {
        self.set.clear()
    }
}

impl<B: BloomSetDelete, S: BuildHasher> BloomFilter<B, S> {
    /// Removes the value with digests `d`: decrements the counter at each of
    /// its positions, leaving counters at zero or at the cap as they are.
    pub fn remove_digests(&mut self, d: &Vec<u64>)
        requires
            old(self).wf(),
        ensures
            final(self).wf(),
            final(self).hasher_seq() == old(self).hasher_seq(),
            final(self).counts() == after_remove(old(self).counts(), B::cap(), old(self).positions(d@)),
    {
        crate::ops::remove_digests(&mut self.set, d);
    }

    /// Removes `val` from the set. If `val` was not inserted before, other
    /// values that share its counters may stop being found.
    pub fn remove<T: Hash>(&mut self, val: &T)
        requires
            old(self).wf(),
        ensures
            final(self).wf(),
            final(self).hasher_seq() == old(self).hasher_seq(),
            exists|d: Seq<u64>|
                d.len() == old(self).hasher_seq().len() && final(self).counts() == #[trigger] after_remove(
                    old(self).counts(),
                    B::cap(),
                    old(self).positions(d),
                ),
    {
        let d = self.digests(val);
        self.remove_digests(&d);
    }
}

impl<B: BinaryBloomSet, S: BuildHasher> BloomFilter<B, S> {
    /// Inserts all values from `other` into `self`. Both must have the same
    /// number of counters and equivalent hash producers.
    pub fn union(&mut self, other: &BloomFilter<B, S>)
        requires
            old(self).wf(),
            other.counts().len() == old(self).counts().len(),
        ensures
            final(self).wf(),
            final(self).hasher_seq() == old(self).hasher_seq(),
            final(self).counts() == pointwise_max(old(self).counts(), other.counts()),
    {
        self.set.union(&other.set);
    }

    /// Keeps only values in `self` which are also in `other`. Both must have
    /// the same number of counters and equivalent hash producers.
    pub fn intersect(&mut self, other: &BloomFilter<B, S>)
        requires
            old(self).wf(),
            other.counts().len() == old(self).counts().len(),
        ensures
            final(self).wf(),
            final(self).hasher_seq() == old(self).hasher_seq(),
            final(self).counts() == pointwise_min(old(self).counts(), other.counts()),
    {
        self.set.intersect(&other.set);
    }
}

impl<B: SpectralBloomSet, S: BuildHasher> BloomFilter<B, S> {
    /// Whether the counter at every position of the value with digests `d`
    /// is above `count`.
    pub fn contains_more_than_digests(&self, d: &Vec<u64>, count: &B::Count) -> (r: bool)
        requires
            self.wf(),
        ensures
            r == all_above(self.counts(), self.positions(d@), count.value()),
    {
        crate::ops::exceeds_digests(&self.set, d, count)
    }

    /// Tests whether the set contains `val` more than `count` times.
    pub fn contains_more_than<T: Hash>(&self, val: &T, count: &B::Count) -> (r: bool)
        requires
            self.wf(),
        ensures
            exists|d: Seq<u64>|
                d.len() == self.hasher_seq().len() && r == #[trigger] all_above(
                    self.counts(),
                    self.positions(d),
                    count.value(),
                ),
    {
        let d = self.digests(val);
        self.contains_more_than_digests(&d, count)
    }

    /// The smallest counter at a position of the value with digests `d`.
    pub fn find_count_digests(&self, d: &Vec<u64>) -> (r: &B::Count)
        requires
            self.wf(),
            d.len() > 0,
        ensures
            is_min_at(self.counts(), self.positions(d@), r.value()),
    {
        crate::ops::min_count_digests(&self.set, d)
    }

    /// Returns an estimate of the number of times the set contains `val`:
    /// the smallest counter at its positions.
    pub fn find_count<T: Hash>(&self, val: &T) -> (r: &B::Count)
        requires
            self.wf(),
        ensures
            exists|d: Seq<u64>|
                d.len() == self.hasher_seq().len() && #[trigger] is_min_at(
                    self.counts(),
                    self.positions(d),
                    r.value(),
                ),
    {
        let d = self.digests(val);
        self.find_count_digests(&d)
    }
}

} // verus!
