use generic_bloom::bits::BitSet;
use generic_bloom::counter::Counter;
use generic_bloom::traits::{BinaryBloomSet, BloomSet, BloomSetDelete, SpectralBloomSet};

#[test]
fn bit_set_sets_and_clears() {
    let mut b: BitSet = BloomSet::new(5);
    assert_eq!(b.size(), 5);
    assert!(!b.query(3));
    b.increment(3);
    b.increment(3);
    assert!(b.query(3));
    assert!(!b.query(2));
    b.clear();
    assert!(!b.query(3));
}

#[test]
fn bit_set_union_and_intersect() {
    let mut a: BitSet = BloomSet::new(4);
    let mut b: BitSet = BloomSet::new(4);
    a.increment(0);
    a.increment(1);
    b.increment(1);
    b.increment(2);
    let mut c: BitSet = BloomSet::new(4);
    c.union(&a);
    c.union(&b);
    assert!(c.query(0) && c.query(1) && c.query(2) && !c.query(3));
    a.intersect(&b);
    assert!(!a.query(0) && a.query(1) && !a.query(2) && !a.query(3));
}

#[test]
fn counting_set_saturates_and_floors() {
    let mut s: Box<[u8]> = BloomSet::new(3);
    assert_eq!(s.size(), 3);
    s.decrement(0);
    assert_eq!(*s.query_count(0), 0);
    for _ in 0..256 {
        s.increment(1);
    }
    assert_eq!(*s.query_count(1), 255);
    s.decrement(1);
    assert_eq!(*s.query_count(1), 255);
    s.increment(2);
    s.increment(2);
    s.decrement(2);
    assert_eq!(*s.query_count(2), 1);
    assert!(s.query(2));
    s.clear();
    assert!(!s.query(1) && !s.query(2));
}

#[test]
fn counters_of_each_width() {
    assert_eq!(u16::MAX.saturating_increment(), u16::MAX);
    assert_eq!(7u32.saturating_increment(), 8);
    assert_eq!(u64::MAX.guarded_decrement(), u64::MAX);
    assert_eq!(0u64.guarded_decrement(), 0);
    assert_eq!(9u8.guarded_decrement(), 8);
    assert!(<u16 as Counter>::zero().is_zero());
    assert!(3u32.at_most(&3));
    assert!(!4u32.at_most(&3));
}
