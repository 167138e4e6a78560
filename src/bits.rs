//! Binary storage: a bit box of the `bitvec` crate, one bit per counter.

use vstd::prelude::*;
use bitvec::boxed::BitBox;
use bitvec::order::Lsb0;
use bitvec::vec::BitVec;
use crate::counter::saturating_inc;
use crate::traits::{BinaryBloomSet, BloomSet, pointwise_max, pointwise_min, zeros};

verus! {

/// A fixed-length sequence of bits, held in a bit box of `bitvec`.
// Opaque to Verus: `BitBox` cannot be declared to it, since its type
// parameters are bounded by `bitvec`'s own traits. `bits_of` names the
// contents, and the functions below are the only access to them.
#[verifier::external_body]
#[derive(Debug, PartialEq)]
pub struct BitSet {
    bits: BitBox<usize, Lsb0>,
}

/// The bits that a bit set holds, in order.
pub uninterp spec fn bits_of(b: BitSet) -> Seq<bool>;

/// Relies on `BitVec::repeat` and `BitVec::into_boxed_bitslice`: `count`
/// clear bits. `repeat` panics where `count` exceeds `BitSlice::MAX_BITS`,
/// which is `usize::MAX >> 3`.
#[verifier::external_body]
fn clear_bits(count: usize) -> (r: BitSet)
    requires
        count <= usize::MAX / 8,
    ensures
        bits_of(r) == Seq::new(count as nat, |i: int| false),
{
    BitSet { bits: BitVec::repeat(false, count).into_boxed_bitslice() }
}

/// Relies on `BitSlice::len` of the bit box: the number of bits.
#[verifier::external_body]
fn bit_len(b: &BitSet) -> (r: usize)
    ensures
        r == bits_of(*b).len(),
{
    b.bits.len()
}

/// Relies on `BitSlice::set`: writes one bit, which must be in bounds.
#[verifier::external_body]
fn set_bit(b: &mut BitSet, index: usize, value: bool)
    requires
        index < bits_of(*old(b)).len(),
    ensures
        bits_of(*final(b)) == bits_of(*old(b)).update(index as int, value),
{
    b.bits.set(index, value)
}

/// Relies on `BitSlice::fill`: writes one value into every bit.
#[verifier::external_body]
fn fill_bits(b: &mut BitSet, value: bool)
    ensures
        bits_of(*final(b)) == Seq::new(bits_of(*old(b)).len(), |i: int| value),
{
    b.bits.fill(value)
}

/// Relies on indexing a `BitSlice`: reads one bit, which must be in bounds.
#[verifier::external_body]
fn get_bit(b: &BitSet, index: usize) -> (r: bool)
    requires
        index < bits_of(*b).len(),
    ensures
        r == bits_of(*b)[index as int],
{
    b.bits[index]
}

/// Relies on `BitOrAssign` of a `BitBox`: bitwise or, bit by bit, with a
/// bit box of the same length.
#[verifier::external_body]
fn or_bits(a: &mut BitSet, b: &BitSet)
    requires
        bits_of(*old(a)).len() == bits_of(*b).len(),
    ensures
        bits_of(*final(a)) == Seq::new(
            bits_of(*old(a)).len(),
            |i: int| bits_of(*old(a))[i] || bits_of(*b)[i],
        ),
{
    a.bits |= &b.bits
}

/// Relies on `BitAndAssign` of a `BitBox`: bitwise and, bit by bit, with a
/// bit box of the same length.
#[verifier::external_body]
fn and_bits(a: &mut BitSet, b: &BitSet)
    requires
        bits_of(*old(a)).len() == bits_of(*b).len(),
    ensures
        bits_of(*final(a)) == Seq::new(
            bits_of(*old(a)).len(),
            |i: int| bits_of(*old(a))[i] && bits_of(*b)[i],
        ),
{
    a.bits &= &b.bits
}

/// A bit read as a counter with cap one.
pub open spec fn bit_count(b: bool) -> nat {
    if b { 1 } else { 0 }
}

impl BloomSet for BitSet {
    open spec fn counts(&self) -> Seq<nat> {
        bits_of(*self).map_values(|b: bool| bit_count(b))
    }

    open spec fn cap() -> nat {
        1
    }

    open spec fn max_size() -> nat {
        (usize::MAX / 8) as nat
    }

    proof fn lemma_bounded(&self) {
    }

    fn new(count: usize) -> (r: Self) {
        let r = clear_bits(count);
        assert(r.counts() =~= zeros(count as nat));
        r
    }

    fn size(&self) -> (r: usize) {
        bit_len(self)
    }

    fn increment(&mut self, index: usize) {
        set_bit(self, index, true);
        assert(self.counts() =~= old(self).counts().update(
            index as int,
            saturating_inc(old(self).counts()[index as int], 1),
        ));
    }

    fn clear(&mut self) {
        fill_bits(self, false);
        assert(self.counts() =~= zeros(old(self).counts().len()));
    }

    fn query(&self, index: usize) -> (r: bool) {
        get_bit(self, index)
    }
}

impl BinaryBloomSet for BitSet {
    fn union(&mut self, other: &Self) {
        or_bits(self, other);
        assert(self.counts() =~= pointwise_max(old(self).counts(), other.counts()));
    }

    fn intersect(&mut self, other: &Self) {
        and_bits(self, other);
        assert(self.counts() =~= pointwise_min(old(self).counts(), other.counts()));
    }
}

} // verus!
