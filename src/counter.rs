//! Bounded counters that saturate at their largest value.

use vstd::prelude::*;

verus! {

/// The value of a counter after one saturating increment.
pub open spec fn saturating_inc(c: nat, cap: nat) -> nat {
    if c < cap { c + 1 } else { cap }
}

/// The value of a counter after one guarded decrement: a counter at zero
/// or at its largest value is left as it is.
pub open spec fn guarded_dec(c: nat, cap: nat) -> nat {
    if c == 0 || c == cap { c } else { (c - 1) as nat }
}

/// An unsigned integer type that can serve as a saturating counter.
pub trait Counter: Sized {
    /// The counter's value.
    spec fn value(&self) -> nat;

    /// The largest value a counter of this type holds.
    spec fn cap() -> nat;

    proof fn lemma_bounds(c: &Self)
        ensures
            c.value() <= Self::cap(),
    ;

    proof fn lemma_cap_positive()
        ensures
            Self::cap() >= 1,
    ;

    fn zero() -> (r: Self)
        ensures
            r.value() == 0,
    ;

    /// One more, or the same value where the counter is at its largest.
    fn saturating_increment(&self) -> (r: Self)
        ensures
            r.value() == saturating_inc(self.value(), Self::cap()),
    ;

    /// One less, unless the counter is at zero or at its largest.
    fn guarded_decrement(&self) -> (r: Self)
        ensures
            r.value() == guarded_dec(self.value(), Self::cap()),
    ;

    fn is_zero(&self) -> (r: bool)
        ensures
            r == (self.value() == 0),
    ;

    fn at_most(&self, other: &Self) -> (r: bool)
        ensures
            r == (self.value() <= other.value()),
    ;
}

impl Counter for u8 {
    open spec fn value(&self) -> nat {
        *self as nat
    }

    open spec fn cap() -> nat {
        u8::MAX as nat
    }

    proof fn lemma_bounds(c: &Self) {
    }

    proof fn lemma_cap_positive() {
    }

    fn zero() -> (r: Self) {
        0
    }

    fn saturating_increment(&self) -> (r: Self) {
        if *self < u8::MAX { *self + 1 } else { *self }
    }

    fn guarded_decrement(&self) -> (r: Self) {
        if *self == 0 || *self == u8::MAX { *self } else { *self - 1 }
    }

    fn is_zero(&self) -> (r: bool) {
        *self == 0
    }

    fn at_most(&self, other: &Self) -> (r: bool) {
        *self <= *other
    }
}

impl Counter for u16 {
    open spec fn value(&self) -> nat {
        *self as nat
    }

    open spec fn cap() -> nat {
        u16::MAX as nat
    }

    proof fn lemma_bounds(c: &Self) {
    }

    proof fn lemma_cap_positive() {
    }

    fn zero() -> (r: Self) {
        0
    }

    fn saturating_increment(&self) -> (r: Self) {
        if *self < u16::MAX { *self + 1 } else { *self }
    }

    fn guarded_decrement(&self) -> (r: Self) {
        if *self == 0 || *self == u16::MAX { *self } else { *self - 1 }
    }

    fn is_zero(&self) -> (r: bool) {
        *self == 0
    }

    fn at_most(&self, other: &Self) -> (r: bool) {
        *self <= *other
    }
}

impl Counter for u32 {
    open spec fn value(&self) -> nat {
        *self as nat
    }

    open spec fn cap() -> nat {
        u32::MAX as nat
    }

    proof fn lemma_bounds(c: &Self) {
    }

    proof fn lemma_cap_positive() {
    }

    fn zero() -> (r: Self) {
        0
    }

    fn saturating_increment(&self) -> (r: Self) {
        if *self < u32::MAX { *self + 1 } else { *self }
    }

    fn guarded_decrement(&self) -> (r: Self) {
        if *self == 0 || *self == u32::MAX { *self } else { *self - 1 }
    }

    fn is_zero(&self) -> (r: bool) {
        *self == 0
    }

    fn at_most(&self, other: &Self) -> (r: bool) {
        *self <= *other
    }
}

impl Counter for u64 {
    open spec fn value(&self) -> nat {
        *self as nat
    }

    open spec fn cap() -> nat {
        u64::MAX as nat
    }

    proof fn lemma_bounds(c: &Self) {
    }

    proof fn lemma_cap_positive() {
    }

    fn zero() -> (r: Self) {
        0
    }

    fn saturating_increment(&self) -> (r: Self) {
        if *self < u64::MAX { *self + 1 } else { *self }
    }

    fn guarded_decrement(&self) -> (r: Self) {
        if *self == 0 || *self == u64::MAX { *self } else { *self - 1 }
    }

    fn is_zero(&self) -> (r: bool) {
        *self == 0
    }

    fn at_most(&self, other: &Self) -> (r: bool) {
        *self <= *other
    }
}

} // verus!
