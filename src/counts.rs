//! Counting storage: a boxed slice of saturating counters.

use vstd::prelude::*;
use crate::counter::{Counter, guarded_dec, saturating_inc};
use crate::traits::{BloomSet, BloomSetDelete, SpectralBloomSet, bounded, zeros};

verus! {

/// Relies on `Vec::into_boxed_slice`: the slice holds the vector's items.
#[verifier::external_body]
fn boxed<T>(v: Vec<T>) -> (r: Box<[T]>)
    ensures
        r@ == v@,
{
    v.into_boxed_slice()
}

/// The values of a sequence of counters.
pub open spec fn values<T: Counter>(s: Seq<T>) -> Seq<nat> {
    s.map_values(|c: T| c.value())
}

impl<T: Counter> BloomSet for Box<[T]> {
    open spec fn counts(&self) -> Seq<nat> {
        values(self@)
    }

    open spec fn cap() -> nat {
        T::cap()
    }

    open spec fn max_size() -> nat {
        usize::MAX as nat
    }

    proof fn lemma_bounded(&self) {
        assert forall|i: int| 0 <= i < self.counts().len() implies #[trigger] self.counts()[i]
            <= T::cap() by {
            T::lemma_bounds(&self@[i]);
        }
        T::lemma_cap_positive();
    }

    fn new(count: usize) -> (r: Self) {
        let mut v: Vec<T> = Vec::new();
        while v.len() < count
            invariant
                v.len() <= count,
                forall|i: int| 0 <= i < v.len() ==> #[trigger] v@[i].value() == 0,
            decreases count - v.len(),
        {
            v.push(T::zero());
        }
        let r = boxed(v);
        assert(values(r@) =~= zeros(count as nat));
        r
    }

    fn size(&self) -> (r: usize) {
        self.len()
    }

    fn increment(&mut self, index: usize) {
        let c = self[index].saturating_increment();
        self[index] = c;
        assert(values(self@) =~= values(old(self)@).update(
            index as int,
            saturating_inc(values(old(self)@)[index as int], T::cap()),
        ));
    }

    fn clear(&mut self) {
        let n = self.len();
        let mut i: usize = 0;
        while i < n
            invariant
                i <= n,
                self@.len() == n,
                n == old(self)@.len(),
                forall|j: int| 0 <= j < i ==> #[trigger] self@[j].value() == 0,
            decreases n - i,
        {
            self[i] = T::zero();
            i += 1;
        }
        assert(values(self@) =~= zeros(n as nat));
    }

    fn query(&self, index: usize) -> (r: bool) {
        !self[index].is_zero()
    }
}

impl<T: Counter> BloomSetDelete for Box<[T]> {
    fn decrement(&mut self, index: usize) {
        let c = self[index].guarded_decrement();
        self[index] = c;
        assert(values(self@) =~= values(old(self)@).update(
            index as int,
            guarded_dec(values(old(self)@)[index as int], T::cap()),
        ));
    }
}

impl<T: Counter> SpectralBloomSet for Box<[T]> {
    type Count = T;

    fn query_count(&self, index: usize) -> (r: &T) {
        &self[index]
    }
}

} // verus!
