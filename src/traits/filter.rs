//! Capabilities of a Bloom filter, so that generic code can work with any
//! filter whose storage offers what it needs.

use vstd::prelude::*;
use std::hash::{BuildHasher, Hash};
use crate::counter::Counter;
use crate::index::{after_insert, after_remove, all_above, all_present, is_min_at, slots};
use crate::traits::{
    BinaryBloomSet, BloomSet, BloomSetDelete, SpectralBloomSet, pointwise_max, pointwise_min,
    zeros,
};

verus! {

/// Supertrait for all types which act as Bloom filters.
pub trait BloomFilter: Sized {
    type Set: BloomSet;

    type Hasher: BuildHasher;

    /// The storage.
    spec fn storage(&self) -> Self::Set;

    /// The number of hash producers.
    spec fn num_hashers(&self) -> nat;

    /// Gets a reference to the underlying counters used by this filter.
    fn counters(&self) -> (r: &Self::Set)
        ensures
            *r == self.storage(),
    ;

    /// Inserts `val` into the set.
    fn insert<T: Hash>(&mut self, val: &T)
        requires
            old(self).num_hashers() > 0 && old(self).storage().counts().len() > 0,
        ensures
            final(self).num_hashers() > 0 && final(self).storage().counts().len() > 0,
            final(self).num_hashers() == old(self).num_hashers(),
            exists|d: Seq<u64>|
                d.len() == old(self).num_hashers() && final(self).storage().counts()
                    == #[trigger] after_insert(
                    old(self).storage().counts(),
                    Self::Set::cap(),
                    slots(d, old(self).storage().counts().len()),
                ),
    ;

    /// Checks whether the set contains `val`.
    fn contains<T: Hash>(&self, val: &T) -> (r: bool)
        requires
            self.num_hashers() > 0 && self.storage().counts().len() > 0,
        ensures
            exists|d: Seq<u64>|
                d.len() == self.num_hashers() && r == #[trigger] all_present(
                    self.storage().counts(),
                    slots(d, self.storage().counts().len()),
                ),
    ;

    /// Clears all values from the set.
    fn clear(&mut self)
        requires
            old(self).num_hashers() > 0 && old(self).storage().counts().len() > 0,
        ensures
            final(self).num_hashers() > 0 && final(self).storage().counts().len() > 0,
            final(self).num_hashers() == old(self).num_hashers(),
            final(self).storage().counts() == zeros(old(self).storage().counts().len()),
    ;
}

/// Trait for types which act as Bloom filters and support deletion.
pub trait BloomFilterDelete: BloomFilter where Self::Set: BloomSetDelete {
    /// Removes `val` from the set. If `val` was not inserted before, other
    /// values that share its counters may stop being found.
    fn remove<T: Hash>(&mut self, val: &T)
        requires
            old(self).num_hashers() > 0 && old(self).storage().counts().len() > 0,
        ensures
            final(self).num_hashers() > 0 && final(self).storage().counts().len() > 0,
            final(self).num_hashers() == old(self).num_hashers(),
            exists|d: Seq<u64>|
                d.len() == old(self).num_hashers() && final(self).storage().counts()
                    == #[trigger] after_remove(
                    old(self).storage().counts(),
                    Self::Set::cap(),
                    slots(d, old(self).storage().counts().len()),
                ),
    ;
}

/// Trait for types which act as Bloom filters and support set operations.
/// Two filters can be combined only if they have equivalent hash producers,
/// which cannot be checked in general.
pub trait BinaryBloomFilter: BloomFilter where Self::Set: BinaryBloomSet {
    /// Inserts all values from `other` into `self`.
    fn union<Other>(&mut self, other: &Other)
        where
            Other: BloomFilter<Set = Self::Set, Hasher = Self::Hasher>,
        requires
            old(self).num_hashers() > 0 && old(self).storage().counts().len() > 0,
            other.storage().counts().len() == old(self).storage().counts().len(),
        ensures
            final(self).num_hashers() > 0 && final(self).storage().counts().len() > 0,
            final(self).num_hashers() == old(self).num_hashers(),
            final(self).storage().counts() == pointwise_max(
                old(self).storage().counts(),
                other.storage().counts(),
            ),
    ;

    /// Keeps only values in `self` which are also in `other`.
    fn intersect<Other>(&mut self, other: &Other)
        where
            Other: BloomFilter<Set = Self::Set, Hasher = Self::Hasher>,
        requires
            old(self).num_hashers() > 0 && old(self).storage().counts().len() > 0,
            other.storage().counts().len() == old(self).storage().counts().len(),
        ensures
            final(self).num_hashers() > 0 && final(self).storage().counts().len() > 0,
            final(self).num_hashers() == old(self).num_hashers(),
            final(self).storage().counts() == pointwise_min(
                old(self).storage().counts(),
                other.storage().counts(),
            ),
    ;
}

/// Trait for types which act as Bloom filters and support count-based
/// queries.
pub trait SpectralBloomFilter: BloomFilter where Self::Set: SpectralBloomSet {
    /// Tests whether the set contains `val` more than `count` times.
    fn contains_more_than<T: Hash>(
        &self,
        val: &T,
        count: &<Self::Set as SpectralBloomSet>::Count,
    ) -> (r: bool)
        requires
            self.num_hashers() > 0 && self.storage().counts().len() > 0,
        ensures
            exists|d: Seq<u64>|
                d.len() == self.num_hashers() && r == #[trigger] all_above(
                    self.storage().counts(),
                    slots(d, self.storage().counts().len()),
                    count.value(),
                ),
    ;

    /// Returns an estimate of the number of times the set contains `val`:
    /// the smallest counter at its positions.
    fn find_count<T: Hash>(&self, val: &T) -> (r: &<Self::Set as SpectralBloomSet>::Count)
        requires
            self.num_hashers() > 0 && self.storage().counts().len() > 0,
        ensures
            exists|d: Seq<u64>|
                d.len() == self.num_hashers() && #[trigger] is_min_at(
                    self.storage().counts(),
                    slots(d, self.storage().counts().len()),
                    r.value(),
                ),
    ;
}

} // verus!
