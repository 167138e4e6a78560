//! Positions of a value in storage, and what filter operations do to the
//! counters at those positions.

use vstd::prelude::*;
use crate::counter::{guarded_dec, saturating_inc};
use crate::traits::bounded;

verus! {

/// The position that a digest selects among `m` counters.
pub open spec fn slot(h: u64, m: nat) -> int {
    (h as int) % (m as int)
}

/// The positions that a sequence of digests selects, one per digest.
pub open spec fn slots(digests: Seq<u64>, m: nat) -> Seq<int> {
    digests.map_values(|h: u64| slot(h, m))
}

/// How often position `p` occurs in `idx`.
pub open spec fn hits(idx: Seq<int>, p: int) -> nat
    decreases idx.len(),
{
    if idx.len() == 0 {
        0
    } else {
        hits(idx.drop_last(), p) + if idx.last() == p { 1nat } else { 0nat }
    }
}

/// Every position of `idx` lies among `m` counters.
pub open spec fn in_range(idx: Seq<int>, m: nat) -> bool {
    forall|j: int| 0 <= j < idx.len() ==> 0 <= #[trigger] idx[j] < m
}

/// The counters after one increment at each position of `idx`: each
/// counter grows by the number of times its position occurs, up to `cap`.
pub open spec fn after_insert(c: Seq<nat>, cap: nat, idx: Seq<int>) -> Seq<nat> {
    Seq::new(
        c.len(),
        |p: int| if c[p] + hits(idx, p) <= cap { c[p] + hits(idx, p) } else { cap },
    )
}

/// The counters after one guarded decrement at each position of `idx`: a
/// counter at `cap` stays there, any other shrinks by the number of times
/// its position occurs, down to zero.
pub open spec fn after_remove(c: Seq<nat>, cap: nat, idx: Seq<int>) -> Seq<nat> {
    Seq::new(
        c.len(),
        |p: int|
            if c[p] == cap {
                cap
            } else if c[p] >= hits(idx, p) {
                (c[p] - hits(idx, p)) as nat
            } else {
                0
            },
    )
}

/// Every counter at a position of `idx` is above zero.
pub open spec fn all_present(c: Seq<nat>, idx: Seq<int>) -> bool {
    forall|j: int| 0 <= j < idx.len() ==> #[trigger] c[idx[j]] > 0
}

/// Every counter at a position of `idx` is above `n`.
pub open spec fn all_above(c: Seq<nat>, idx: Seq<int>, n: nat) -> bool {
    forall|j: int| 0 <= j < idx.len() ==> #[trigger] c[idx[j]] > n
}

/// `v` is the smallest counter at a position of `idx`.
pub open spec fn is_min_at(c: Seq<nat>, idx: Seq<int>, v: nat) -> bool {
    &&& forall|j: int| 0 <= j < idx.len() ==> v <= #[trigger] c[idx[j]]
    &&& exists|j: int| 0 <= j < idx.len() && v == #[trigger] c[idx[j]]
}

pub proof fn lemma_slots_push(d: Seq<u64>, m: nat, j: int)
    requires
        0 <= j < d.len(),
    ensures
        slots(d.take(j + 1), m) == slots(d.take(j), m).push(slot(d[j], m)),
{
    assert(slots(d.take(j + 1), m) =~= slots(d.take(j), m).push(slot(d[j], m)));
}

pub proof fn lemma_hits_push(idx: Seq<int>, p: int, q: int)
    ensures
        hits(idx.push(p), q) == hits(idx, q) + if p == q { 1nat } else { 0nat },
{
    assert(idx.push(p).drop_last() =~= idx);
}

/// One more position inserted is one more saturating increment.
pub proof fn lemma_insert_push(c: Seq<nat>, cap: nat, idx: Seq<int>, p: int)
    requires
        0 <= p < c.len(),
    ensures
        after_insert(c, cap, idx.push(p)) == after_insert(c, cap, idx).update(
            p,
            saturating_inc(after_insert(c, cap, idx)[p], cap),
        ),
{
    assert forall|q: int| 0 <= q < c.len() implies #[trigger] after_insert(c, cap, idx.push(p))[q]
        == after_insert(c, cap, idx).update(p, saturating_inc(after_insert(c, cap, idx)[p], cap))[q] by {
        lemma_hits_push(idx, p, q);
    }
    assert(after_insert(c, cap, idx.push(p)) =~= after_insert(c, cap, idx).update(
        p,
        saturating_inc(after_insert(c, cap, idx)[p], cap),
    ));
}

/// One more position removed is one more guarded decrement.
pub proof fn lemma_remove_push(c: Seq<nat>, cap: nat, idx: Seq<int>, p: int)
    requires
        0 <= p < c.len(),
        bounded(c, cap),
    ensures
        after_remove(c, cap, idx.push(p)) == after_remove(c, cap, idx).update(
            p,
            guarded_dec(after_remove(c, cap, idx)[p], cap),
        ),
{
    assert forall|q: int| 0 <= q < c.len() implies #[trigger] after_remove(c, cap, idx.push(p))[q]
        == after_remove(c, cap, idx).update(p, guarded_dec(after_remove(c, cap, idx)[p], cap))[q] by {
        lemma_hits_push(idx, p, q);
    }
    assert(after_remove(c, cap, idx.push(p)) =~= after_remove(c, cap, idx).update(
        p,
        guarded_dec(after_remove(c, cap, idx)[p], cap),
    ));
}

pub proof fn lemma_empty(c: Seq<nat>, cap: nat)
    requires
        bounded(c, cap),
    ensures
        after_insert(c, cap, seq![]) == c,
        after_remove(c, cap, seq![]) == c,
{
    assert(after_insert(c, cap, seq![]) =~= c);
    assert(after_remove(c, cap, seq![]) =~= c);
}

} // verus!
