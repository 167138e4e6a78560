use generic_bloom::bits::BitSet;
use generic_bloom::BloomFilter;

#[test]
fn insert_contains() {
    let mut f: BloomFilter<BitSet> = BloomFilter::new(10, 20);
    f.insert(&48);
    f.insert(&32);
    assert!(f.contains(&48));
    assert!(f.contains(&32));
    // 39 was never inserted; it is found only where all ten of its
    // positions collide with those of 48 and 32.
    let _found_39 = f.contains(&39);
}

#[test]
fn union() {
    let mut f1: BloomFilter<BitSet> = BloomFilter::new(10, 20);
    f1.insert(&48);
    f1.insert(&32);
    let mut f2: BloomFilter<BitSet> = BloomFilter::with_hashers(f1.hashers().to_vec(), 20);
    f2.insert(&39);
    assert!(f1.contains(&48));
    assert!(f1.contains(&32));
    let _found_39 = f1.contains(&39);
    assert!(f2.contains(&39));
    f1.union(&f2);
    assert!(f1.contains(&48));
    assert!(f1.contains(&32));
    assert!(f1.contains(&39));
}

#[test]
fn intersect() {
    let mut f1: BloomFilter<BitSet> = BloomFilter::new(10, 20);
    f1.insert(&48);
    f1.insert(&32);
    let mut f2: BloomFilter<BitSet> = BloomFilter::with_hashers(f1.hashers().to_vec(), 20);
    f2.insert(&32);
    f2.insert(&39);
    assert!(f1.contains(&48));
    assert!(f1.contains(&32));
    let f1_had_39 = f1.contains(&39);
    assert!(f2.contains(&39));
    let f2_had_48 = f2.contains(&48);
    f1.intersect(&f2);
    // 48 stays only as a false positive of f2, 39 only as one of f1.
    assert!(!f1.contains(&48) || f2_had_48);
    assert!(f1.contains(&32));
    assert!(!f1.contains(&39) || f1_had_39);
}

#[test]
fn delete() {
    let mut f: BloomFilter<Box<[u8]>> = BloomFilter::new(10, 20);
    for x in 0..30 {
        f.insert(&x);
    }
    let contains_30 = f.contains(&30);
    f.insert(&30);
    assert!(f.contains(&30));
    f.remove(&30);
    assert!(f.contains(&30) == contains_30);
}

#[test]
fn inserted_values_are_found() {
    let mut f: BloomFilter<Box<[u8]>> = BloomFilter::new(4, 50);
    for x in 0..40u32 {
        f.insert(&x);
    }
    for x in 0..40u32 {
        assert!(f.contains(&x));
    }
}

#[test]
fn digests_select_positions_modulo_size() {
    let mut f: BloomFilter<Box<[u8]>> = BloomFilter::new(3, 10);
    f.insert_digests(&vec![3, 13, 7]);
    assert_eq!(*f.find_count_digests(&vec![3]), 2);
    assert_eq!(*f.find_count_digests(&vec![17]), 1);
    assert_eq!(*f.find_count_digests(&vec![3, 7]), 1);
    assert_eq!(*f.find_count_digests(&vec![5]), 0);
    assert!(f.contains_digests(&vec![3, 7]));
    assert!(!f.contains_digests(&vec![3, 5]));
    assert!(f.contains_more_than_digests(&vec![23], &1));
    assert!(!f.contains_more_than_digests(&vec![23, 7], &1));
}

#[test]
fn digest_of_largest_value() {
    let mut f: BloomFilter<Box<[u8]>> = BloomFilter::new(1, 7);
    f.insert_digests(&vec![u64::MAX]);
    // u64::MAX leaves remainder 1 when divided by 7.
    assert_eq!(*f.find_count_digests(&vec![1]), 1);
    assert_eq!(*f.find_count_digests(&vec![0]), 0);
}

#[test]
fn remove_digests_restores_counts() {
    let mut f: BloomFilter<Box<[u8]>> = BloomFilter::new(2, 8);
    f.insert_digests(&vec![1, 2]);
    f.insert_digests(&vec![2, 10]);
    assert_eq!(*f.find_count_digests(&vec![2]), 3);
    f.remove_digests(&vec![2, 10]);
    assert_eq!(*f.find_count_digests(&vec![2]), 1);
    assert_eq!(*f.find_count_digests(&vec![1]), 1);
    f.remove_digests(&vec![1, 2]);
    assert!(!f.contains_digests(&vec![1]));
    assert!(!f.contains_digests(&vec![2]));
}

#[test]
fn counters_saturate() {
    let mut f: BloomFilter<Box<[u8]>> = BloomFilter::new(1, 1);
    for _ in 0..300 {
        f.insert(&"a");
    }
    assert_eq!(*f.find_count(&"a"), 255);
    assert!(f.contains_more_than(&"a", &254));
    // A saturated counter is not decremented.
    f.remove(&"a");
    assert_eq!(*f.find_count(&"a"), 255);
}

#[test]
fn remove_at_zero_stays_zero() {
    let mut f: BloomFilter<Box<[u16]>> = BloomFilter::new(2, 1);
    f.remove(&5);
    assert_eq!(*f.find_count(&5), 0);
    f.insert(&5);
    assert_eq!(*f.find_count(&5), 2);
    f.remove(&5);
    f.remove(&5);
    assert_eq!(*f.find_count(&5), 0);
    assert!(!f.contains(&5));
}

#[test]
fn find_count_is_at_least_inserts() {
    let mut f: BloomFilter<Box<[u32]>> = BloomFilter::new(5, 64);
    for _ in 0..3 {
        f.insert(&"x");
    }
    f.insert(&"y");
    assert!(*f.find_count(&"x") >= 3);
    assert!(f.contains_more_than(&"x", &2));
    assert!(*f.find_count(&"y") >= 1);
}

#[test]
fn clear_empties_filter() {
    let mut f: BloomFilter<BitSet> = BloomFilter::new(3, 16);
    f.insert(&1);
    f.insert(&2);
    f.clear();
    assert!(!f.contains(&1));
    assert!(!f.contains(&2));
    let mut g: BloomFilter<Box<[u8]>> = BloomFilter::new(3, 16);
    g.insert(&1);
    g.clear();
    assert!(!g.contains(&1));
    assert_eq!(*g.find_count(&1), 0);
}

#[test]
fn union_and_intersect_are_bitwise() {
    let mut a: BloomFilter<BitSet> = BloomFilter::new(1, 8);
    let mut b: BloomFilter<BitSet> = BloomFilter::with_hashers(a.hashers().to_vec(), 8);
    a.insert_digests(&vec![1, 2]);
    b.insert_digests(&vec![2, 3]);
    let mut u: BloomFilter<BitSet> = BloomFilter::with_hashers(a.hashers().to_vec(), 8);
    u.union(&a);
    u.union(&b);
    assert!(u.contains_digests(&vec![1, 2, 3]));
    assert!(!u.contains_digests(&vec![4]));
    a.intersect(&b);
    assert!(a.contains_digests(&vec![2]));
    assert!(!a.contains_digests(&vec![1]));
    assert!(!a.contains_digests(&vec![3]));
}

#[test]
fn hashers_are_kept() {
    let f: BloomFilter<BitSet> = BloomFilter::new(7, 3);
    assert_eq!(f.hashers().len(), 7);
    assert_eq!(f.digests(&"v").len(), 7);
}

#[test]
fn removing_other_inserted_values_keeps_value() {
    let mut f: BloomFilter<Box<[u8]>> = BloomFilter::new(6, 12);
    f.insert(&"a");
    f.insert(&"b");
    f.insert(&"c");
    f.remove(&"b");
    f.remove(&"c");
    assert!(f.contains(&"a"));
    assert!(*f.find_count(&"a") >= 1);
}
