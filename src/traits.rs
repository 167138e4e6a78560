//! Capabilities of the storage behind a Bloom filter.
//!
//! A storage is modelled as a sequence of counters, each a natural number
//! no larger than the storage's cap. A bit is a counter whose cap is one.

use vstd::prelude::*;
use crate::counter::{Counter, guarded_dec, saturating_inc};

pub mod filter;

verus! {

/// `len` counters at zero.
pub open spec fn zeros(len: nat) -> Seq<nat> {
    Seq::new(len, |i: int| 0nat)
}

/// Every counter of `c` lies in `1 ..= cap` or at zero.
pub open spec fn bounded(c: Seq<nat>, cap: nat) -> bool {
    &&& cap >= 1
    &&& forall|i: int| 0 <= i < c.len() ==> #[trigger] c[i] <= cap
}

/// Storage that can back a Bloom filter.
pub trait BloomSet: Sized {
    /// The counters, in order.
    spec fn counts(&self) -> Seq<nat>;

    /// The largest value a counter holds.
    spec fn cap() -> nat;

    /// The largest number of counters that a storage of this type can be
    /// created with.
    spec fn max_size() -> nat;

    /// Every counter stays within the cap.
    proof fn lemma_bounded(&self)
        ensures
            bounded(self.counts(), Self::cap()),
    ;

    /// Creates a storage of `count` counters, all at zero.
    fn new(count: usize) -> (r: Self)
        requires
            count <= Self::max_size(),
        ensures
            r.counts() == zeros(count as nat),
    ;

    /// The number of counters.
    fn size(&self) -> (r: usize)
        ensures
            r == self.counts().len(),
    ;

    /// Adds one to a counter, saturating at the cap.
    fn increment(&mut self, index: usize)
        requires
            index < old(self).counts().len(),
        ensures
            final(self).counts() == old(self).counts().update(
                index as int,
                saturating_inc(old(self).counts()[index as int], Self::cap()),
            ),
    ;

    /// Sets every counter to zero.
    fn clear(&mut self)
        ensures
            final(self).counts() == zeros(old(self).counts().len()),
    ;

    /// Whether a counter indicates presence, that is, is above zero.
    fn query(&self, index: usize) -> (r: bool)
        requires
            index < self.counts().len(),
        ensures
            r == (self.counts()[index as int] > 0),
    ;
}

/// Storage that supports deletion.
pub trait BloomSetDelete: BloomSet {
    /// Takes one from a counter, unless it is at zero or at the cap.
    fn decrement(&mut self, index: usize)
        requires
            index < old(self).counts().len(),
        ensures
            final(self).counts() == old(self).counts().update(
                index as int,
                guarded_dec(old(self).counts()[index as int], Self::cap()),
            ),
    ;
}

/// Storage whose counters can be read as numbers.
pub trait SpectralBloomSet: BloomSet {
    type Count: Counter;

    /// The counter at `index`.
    fn query_count(&self, index: usize) -> (r: &Self::Count)
        requires
            index < self.counts().len(),
        ensures
            r.value() == self.counts()[index as int],
    ;
}

/// Pointwise maximum of two counter sequences: for bits, logical or.
pub open spec fn pointwise_max(a: Seq<nat>, b: Seq<nat>) -> Seq<nat> {
    Seq::new(a.len(), |i: int| if a[i] >= b[i] { a[i] } else { b[i] })
}

/// Pointwise minimum of two counter sequences: for bits, logical and.
pub open spec fn pointwise_min(a: Seq<nat>, b: Seq<nat>) -> Seq<nat> {
    Seq::new(a.len(), |i: int| if a[i] <= b[i] { a[i] } else { b[i] })
}

/// Storage of single bits that can be merged with another of its size.
pub trait BinaryBloomSet: BloomSet {
    /// Sets every bit that is set in `other`.
    fn union(&mut self, other: &Self)
        requires
            old(self).counts().len() == other.counts().len(),
        ensures
            final(self).counts() == pointwise_max(old(self).counts(), other.counts()),
    ;

    /// Clears every bit that is clear in `other`.
    fn intersect(&mut self, other: &Self)
        requires
            old(self).counts().len() == other.counts().len(),
        ensures
            final(self).counts() == pointwise_min(old(self).counts(), other.counts()),
    ;
}

} // verus!
