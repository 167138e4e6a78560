//! The operations of a filter on its storage, given the digests of a value.

use vstd::prelude::*;
use crate::counter::Counter;
use crate::index::{
    after_insert, after_remove, all_above, all_present, is_min_at, lemma_empty,
    lemma_insert_push, lemma_remove_push, lemma_slots_push, slot, slots,
};
use crate::traits::{BloomSet, BloomSetDelete, SpectralBloomSet};

verus! {

/// The position among `m` counters that digest `h` selects.
pub fn slot_of(h: u64, m: usize) -> (r: usize)
    requires
        m > 0,
    ensures
        r == slot(h, m as nat),
        r < m,
{
    (h % (m as u64)) as usize
}

/// Increments the counter at the position of each digest.
pub fn insert_digests<B: BloomSet>(set: &mut B, digests: &Vec<u64>)
    requires
        old(set).counts().len() > 0,
    ensures
        final(set).counts() == after_insert(
            old(set).counts(),
            B::cap(),
            slots(digests@, old(set).counts().len()),
        ),
{
    let m = set.size();
    let ghost c0 = set.counts();
    proof {
        set.lemma_bounded();
        lemma_empty(c0, B::cap());
        assert(slots(digests@.take(0), m as nat) =~= seq![]);
    }
    let mut j: usize = 0;
    while j < digests.len()
        invariant
            j <= digests.len(),
            m == c0.len(),
            m > 0,
            set.counts() == after_insert(c0, B::cap(), slots(digests@.take(j as int), m as nat)),
        decreases digests.len() - j,
    {
        let i = slot_of(digests[j], m);
        proof {
            lemma_slots_push(digests@, m as nat, j as int);
            lemma_insert_push(c0, B::cap(), slots(digests@.take(j as int), m as nat), i as int);
        }
        set.increment(i);
        j += 1;
    }
    assert(digests@.take(j as int) =~= digests@);
}

/// Decrements the counter at the position of each digest.
pub fn remove_digests<B: BloomSetDelete>(set: &mut B, digests: &Vec<u64>)
    requires
        old(set).counts().len() > 0,
    ensures
        final(set).counts() == after_remove(
            old(set).counts(),
            B::cap(),
            slots(digests@, old(set).counts().len()),
        ),
{
    let m = set.size();
    let ghost c0 = set.counts();
    proof {
        set.lemma_bounded();
        lemma_empty(c0, B::cap());
        assert(slots(digests@.take(0), m as nat) =~= seq![]);
    }
    let mut j: usize = 0;
    while j < digests.len()
        invariant
            j <= digests.len(),
            m == c0.len(),
            m > 0,
            crate::traits::bounded(c0, B::cap()),
            set.counts() == after_remove(c0, B::cap(), slots(digests@.take(j as int), m as nat)),
        decreases digests.len() - j,
    {
        let i = slot_of(digests[j], m);
        proof {
            lemma_slots_push(digests@, m as nat, j as int);
            lemma_remove_push(c0, B::cap(), slots(digests@.take(j as int), m as nat), i as int);
        }
        set.decrement(i);
        j += 1;
    }
    assert(digests@.take(j as int) =~= digests@);
}

/// Whether the counter at the position of every digest is above zero.
pub fn contains_digests<B: BloomSet>(set: &B, digests: &Vec<u64>) -> (r: bool)
    requires
        set.counts().len() > 0,
    ensures
        r == all_present(set.counts(), slots(digests@, set.counts().len())),
{
    let m = set.size();
    let mut j: usize = 0;
    while j < digests.len()
        invariant
            j <= digests.len(),
            m == set.counts().len(),
            m > 0,
            forall|k: int| 0 <= k < j ==> #[trigger] set.counts()[slot(digests@[k], m as nat)] > 0,
        decreases digests.len() - j,
    {
        let i = slot_of(digests[j], m);
        if !set.query(i) {
            assert(slots(digests@, m as nat)[j as int] == i);
            return false;
        }
        j += 1;
    }
    assert forall|k: int| 0 <= k < digests@.len() implies #[trigger] set.counts()[slots(
        digests@,
        m as nat,
    )[k]] > 0 by {
        assert(set.counts()[slot(digests@[k], m as nat)] > 0);
    }
    true
}

/// Whether the counter at the position of every digest is above `count`.
pub fn exceeds_digests<B: SpectralBloomSet>(set: &B, digests: &Vec<u64>, count: &B::Count) -> (r:
    bool)
    requires
        set.counts().len() > 0,
    ensures
        r == all_above(set.counts(), slots(digests@, set.counts().len()), count.value()),
{
    let m = set.size();
    let mut j: usize = 0;
    while j < digests.len()
        invariant
            j <= digests.len(),
            m == set.counts().len(),
            m > 0,
            forall|k: int|
                0 <= k < j ==> #[trigger] set.counts()[slot(digests@[k], m as nat)]
                    > count.value(),
        decreases digests.len() - j,
    {
        let i = slot_of(digests[j], m);
        if set.query_count(i).at_most(count) {
            assert(slots(digests@, m as nat)[j as int] == i);
            return false;
        }
        j += 1;
    }
    assert forall|k: int| 0 <= k < digests@.len() implies #[trigger] set.counts()[slots(
        digests@,
        m as nat,
    )[k]] > count.value() by {
        assert(set.counts()[slot(digests@[k], m as nat)] > count.value());
    }
    true
}

/// The smallest counter at the position of a digest.
pub fn min_count_digests<'a, B: SpectralBloomSet>(set: &'a B, digests: &Vec<u64>) -> (r:
    &'a B::Count)
    requires
        set.counts().len() > 0,
        digests.len() > 0,
    ensures
        is_min_at(set.counts(), slots(digests@, set.counts().len()), r.value()),
{
    let m = set.size();
    let ghost idx = slots(digests@, m as nat);
    let mut best = set.query_count(slot_of(digests[0], m));
    let ghost mut at: int = 0;
    let mut j: usize = 1;
    while j < digests.len()
        invariant
            1 <= j <= digests.len(),
            m == set.counts().len(),
            m > 0,
            idx == slots(digests@, m as nat),
            0 <= at < j,
            best.value() == set.counts()[idx[at]],
            forall|k: int| 0 <= k < j ==> best.value() <= #[trigger] set.counts()[idx[k]],
        decreases digests.len() - j,
    {
        let c = set.query_count(slot_of(digests[j], m));
        if !best.at_most(c) {
            best = c;
            proof {
                at = j as int;
            }
        }
        j += 1;
    }
    best
}

} // verus!
