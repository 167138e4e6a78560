use generic_bloom::bits::BitSet;
use generic_bloom::simple_filter::SimpleBloomFilter;
use generic_bloom::traits::filter::{
    BinaryBloomFilter, BloomFilter, BloomFilterDelete, SpectralBloomFilter,
};
use generic_bloom::traits::BloomSet;

#[test]
fn simple_remove_restores_answer() {
    let mut f: SimpleBloomFilter<Box<[u8]>> = SimpleBloomFilter::new(10, 20);
    for x in 0..30 {
        f.insert(&x);
    }
    let contains_30 = f.contains(&30);
    f.insert(&30);
    assert!(f.contains(&30));
    f.remove(&30);
    assert!(f.contains(&30) == contains_30);
}

#[test]
fn simple_union_with_shared_hashers() {
    let mut f1: SimpleBloomFilter<BitSet> = SimpleBloomFilter::new(10, 20);
    f1.insert(&48);
    f1.insert(&32);
    let mut f2: SimpleBloomFilter<BitSet> = SimpleBloomFilter::with_hashers(f1.hashers().clone(), 20);
    f2.insert(&39);
    assert!(f1.contains(&48));
    assert!(f1.contains(&32));
    assert!(f2.contains(&39));
    f1.union(&f2);
    assert!(f1.contains(&48));
    assert!(f1.contains(&32));
    assert!(f1.contains(&39));
}

#[test]
fn simple_intersect_with_shared_hashers() {
    let mut f1: SimpleBloomFilter<BitSet> = SimpleBloomFilter::new(10, 20);
    f1.insert(&48);
    f1.insert(&32);
    let mut f2: SimpleBloomFilter<BitSet> = SimpleBloomFilter::with_hashers(f1.hashers().clone(), 20);
    f2.insert(&32);
    f2.insert(&39);
    let f1_had_39 = f1.contains(&39);
    let f2_had_48 = f2.contains(&48);
    f1.intersect(&f2);
    assert!(!f1.contains(&48) || f2_had_48);
    assert!(f1.contains(&32));
    assert!(!f1.contains(&39) || f1_had_39);
}

#[test]
fn simple_counts_and_clear() {
    let mut f: SimpleBloomFilter<Box<[u64]>> = SimpleBloomFilter::new(3, 32);
    for _ in 0..4 {
        f.insert(&"k");
    }
    assert!(*f.find_count(&"k") >= 4);
    assert!(f.contains_more_than(&"k", &3));
    assert_eq!(f.counters().size(), 32);
    f.clear();
    assert!(!f.contains(&"k"));
    assert_eq!(*f.find_count(&"k"), 0);
    assert!(!f.contains_more_than(&"k", &0));
}

#[test]
fn simple_into_inner_returns_parts() {
    let f: SimpleBloomFilter<BitSet> = SimpleBloomFilter::new(4, 9);
    let (hashers, set) = f.into_inner();
    assert_eq!(hashers.len(), 4);
    assert_eq!(set.size(), 9);
}
