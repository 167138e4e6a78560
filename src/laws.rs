//! Properties of Bloom filter operations, stated over the counter model.
//!
//! A value occupies the positions `w` that its digests select (see
//! `index::slots`); the filter operations act on the counters as
//! `after_insert`, `after_remove`, `pointwise_max` and `pointwise_min` say.

use vstd::prelude::*;
use crate::counter::{guarded_dec, saturating_inc};
use crate::index::{after_insert, after_remove, all_present, hits, in_range, is_min_at};
use crate::traits::{bounded, pointwise_max, pointwise_min, zeros};

verus! {

/// The counters after inserting each entry of `hist` in turn.
pub open spec fn inserted_all(c: Seq<nat>, cap: nat, hist: Seq<Seq<int>>) -> Seq<nat>
    decreases hist.len(),
{
    if hist.len() == 0 {
        c
    } else {
        after_insert(inserted_all(c, cap, hist.drop_last()), cap, hist.last())
    }
}

/// How many entries of `hist` are `w`.
pub open spec fn times_inserted(hist: Seq<Seq<int>>, w: Seq<int>) -> nat
    decreases hist.len(),
{
    if hist.len() == 0 {
        0
    } else {
        times_inserted(hist.drop_last(), w) + if hist.last() == w { 1nat } else { 0nat }
    }
}

/// A counter after `n` saturating increments.
pub open spec fn incremented(c: nat, cap: nat, n: nat) -> nat
    decreases n,
{
    if n == 0 {
        c
    } else {
        saturating_inc(incremented(c, cap, (n - 1) as nat), cap)
    }
}

/// Each entry of `hist` lies among `m` counters.
pub open spec fn all_in_range(hist: Seq<Seq<int>>, m: nat) -> bool {
    forall|i: int| 0 <= i < hist.len() ==> in_range(#[trigger] hist[i], m)
}

/// A position that occurs in `s` is hit at least once.
pub proof fn lemma_hits_at(s: Seq<int>, j: int)
    requires
        0 <= j < s.len(),
    ensures
        hits(s, s[j]) >= 1,
    decreases s.len(),
{
    if j < s.len() - 1 {
        lemma_hits_at(s.drop_last(), j);
    }
}

/// Insertion and removal keep every counter within the cap.
pub proof fn lemma_bounded_kept(c: Seq<nat>, cap: nat, s: Seq<int>)
    requires
        bounded(c, cap),
    ensures
        bounded(after_insert(c, cap, s), cap),
        bounded(after_remove(c, cap, s), cap),
        after_insert(c, cap, s).len() == c.len(),
        after_remove(c, cap, s).len() == c.len(),
{
}

/// A counter incremented any number of times never passes its cap, and a
/// counter at zero stays at zero when decremented.
pub proof fn lemma_saturation(c: nat, cap: nat, n: nat)
    requires
        c <= cap,
    ensures
        incremented(c, cap, n) == if c + n <= cap { c + n } else { cap },
        incremented(c, cap, n) <= cap,
        guarded_dec(0, cap) == 0,
    decreases n,
{
    if n > 0 {
        lemma_saturation(c, cap, (n - 1) as nat);
    }
}

/// After a value is inserted, every counter at its positions indicates
/// presence.
pub proof fn lemma_insert_then_present(c: Seq<nat>, cap: nat, w: Seq<int>)
    requires
        bounded(c, cap),
        in_range(w, c.len()),
    ensures
        all_present(after_insert(c, cap, w), w),
{
    assert forall|j: int| 0 <= j < w.len() implies #[trigger] after_insert(c, cap, w)[w[j]] > 0 by {
        lemma_hits_at(w, j);
    }
}

/// Inserting any value keeps every value present that was present.
pub proof fn lemma_insert_keeps_present(c: Seq<nat>, cap: nat, s: Seq<int>, w: Seq<int>)
    requires
        bounded(c, cap),
        in_range(w, c.len()),
        all_present(c, w),
    ensures
        all_present(after_insert(c, cap, s), w),
{
    assert forall|j: int| 0 <= j < w.len() implies #[trigger] after_insert(c, cap, s)[w[j]] > 0 by {
        assert(c[w[j]] > 0);
    }
}

/// No false negatives: after a sequence of insertions from any state, every
/// value that was inserted is found.
pub proof fn lemma_no_false_negatives(c: Seq<nat>, cap: nat, hist: Seq<Seq<int>>, w: Seq<int>)
    requires
        bounded(c, cap),
        all_in_range(hist, c.len()),
        hist.contains(w),
    ensures
        all_present(inserted_all(c, cap, hist), w),
    decreases hist.len(),
{
    lemma_inserted_all_bounded(c, cap, hist);
    let prev = inserted_all(c, cap, hist.drop_last());
    lemma_inserted_all_bounded(c, cap, hist.drop_last());
    let i = choose|i: int| 0 <= i < hist.len() && hist[i] == w;
    assert(in_range(hist[i], c.len()));
    if hist.last() == w {
        lemma_insert_then_present(prev, cap, w);
    } else {
        assert(hist.drop_last()[i] == w);
        assert(all_in_range(hist.drop_last(), c.len())) by {
            assert forall|k: int| 0 <= k < hist.drop_last().len() implies in_range(
                #[trigger] hist.drop_last()[k],
                c.len(),
            ) by {
                assert(in_range(hist[k], c.len()));
            }
        }
        lemma_no_false_negatives(c, cap, hist.drop_last(), w);
        lemma_insert_keeps_present(prev, cap, hist.last(), w);
    }
}

pub proof fn lemma_inserted_all_bounded(c: Seq<nat>, cap: nat, hist: Seq<Seq<int>>)
    requires
        bounded(c, cap),
    ensures
        bounded(inserted_all(c, cap, hist), cap),
        inserted_all(c, cap, hist).len() == c.len(),
    decreases hist.len(),
{
    if hist.len() > 0 {
        lemma_inserted_all_bounded(c, cap, hist.drop_last());
    }
}

/// A removal leaves a value present where each of its counters is at the
/// cap or above the number of decrements that the removal makes there.
pub proof fn lemma_remove_keeps_present(c: Seq<nat>, cap: nat, u: Seq<int>, w: Seq<int>)
    requires
        bounded(c, cap),
        in_range(w, c.len()),
        forall|j: int| 0 <= j < w.len() ==> #[trigger] c[w[j]] == cap || c[w[j]] > hits(u, w[j]),
    ensures
        all_present(after_remove(c, cap, u), w),
{
    assert forall|j: int| 0 <= j < w.len() implies #[trigger] after_remove(c, cap, u)[w[j]] > 0 by {
        assert(c[w[j]] == cap || c[w[j]] > hits(u, w[j]));
    }
}

/// Removing a value right after inserting it restores every counter, as
/// long as none of its counters reached the cap.
pub proof fn lemma_remove_undoes_insert(c: Seq<nat>, cap: nat, s: Seq<int>)
    requires
        bounded(c, cap),
        forall|p: int| 0 <= p < c.len() && #[trigger] hits(s, p) > 0 ==> c[p] + hits(s, p) < cap,
    ensures
        after_remove(after_insert(c, cap, s), cap, s) == c,
{
    let a = after_insert(c, cap, s);
    assert forall|p: int| 0 <= p < c.len() implies #[trigger] after_remove(a, cap, s)[p] == c[p] by {
        if hits(s, p) > 0 {
            assert(c[p] + hits(s, p) < cap);
        }
    }
    assert(after_remove(a, cap, s) =~= c);
}

/// Union is a superset operation: what either side contained, the union
/// contains.
pub proof fn lemma_union_superset(a: Seq<nat>, b: Seq<nat>, w: Seq<int>)
    requires
        a.len() == b.len(),
        in_range(w, a.len()),
        all_present(a, w) || all_present(b, w),
    ensures
        all_present(pointwise_max(a, b), w),
{
    assert forall|j: int| 0 <= j < w.len() implies #[trigger] pointwise_max(a, b)[w[j]] > 0 by {
        if all_present(a, w) {
            assert(a[w[j]] > 0);
        } else {
            assert(b[w[j]] > 0);
        }
    }
}

/// Intersection is a subset operation: what the intersection contains,
/// both sides contained.
pub proof fn lemma_intersect_subset(a: Seq<nat>, b: Seq<nat>, w: Seq<int>)
    requires
        a.len() == b.len(),
        in_range(w, a.len()),
        all_present(pointwise_min(a, b), w),
    ensures
        all_present(a, w),
        all_present(b, w),
{
    assert forall|j: int| 0 <= j < w.len() implies #[trigger] a[w[j]] > 0 by {
        assert(pointwise_min(a, b)[w[j]] > 0);
    }
    assert forall|j: int| 0 <= j < w.len() implies #[trigger] b[w[j]] > 0 by {
        assert(pointwise_min(a, b)[w[j]] > 0);
    }
}

/// A counter at a position of `w` is at least the number of insertions of
/// `w`, up to the cap.
pub proof fn lemma_counter_lower_bound(
    c: Seq<nat>,
    cap: nat,
    hist: Seq<Seq<int>>,
    w: Seq<int>,
    j: int,
)
    requires
        bounded(c, cap),
        in_range(w, c.len()),
        0 <= j < w.len(),
    ensures
        inserted_all(c, cap, hist)[w[j]] >= if times_inserted(hist, w) <= cap {
            times_inserted(hist, w)
        } else {
            cap
        },
    decreases hist.len(),
{
    if hist.len() > 0 {
        lemma_counter_lower_bound(c, cap, hist.drop_last(), w, j);
        lemma_inserted_all_bounded(c, cap, hist.drop_last());
        if hist.last() == w {
            lemma_hits_at(w, j);
        }
    }
}

/// The count estimate is one-sided: the smallest counter at the positions
/// of `w` is at least the number of times `w` was inserted, up to the cap.
pub proof fn lemma_count_overestimates(
    c: Seq<nat>,
    cap: nat,
    hist: Seq<Seq<int>>,
    w: Seq<int>,
    v: nat,
)
    requires
        bounded(c, cap),
        in_range(w, c.len()),
        is_min_at(inserted_all(c, cap, hist), w, v),
    ensures
        v >= if times_inserted(hist, w) <= cap { times_inserted(hist, w) } else { cap },
{
    let j = choose|j: int| 0 <= j < w.len() && v == #[trigger] inserted_all(c, cap, hist)[w[j]];
    lemma_counter_lower_bound(c, cap, hist, w, j);
}

/// After clearing, no value with at least one position is found.
pub proof fn lemma_clear_empties(m: nat, w: Seq<int>)
    requires
        w.len() > 0,
        in_range(w, m),
    ensures
        !all_present(zeros(m), w),
{
    assert(zeros(m)[w[0]] == 0);
}

/// The counters after each step of `hist` in turn: a step `(true, w)`
/// inserts the value at positions `w`, a step `(false, w)` removes it.
pub open spec fn applied(c: Seq<nat>, cap: nat, hist: Seq<(bool, Seq<int>)>) -> Seq<nat>
    decreases hist.len(),
{
    if hist.len() == 0 {
        c
    } else {
        let prev = applied(c, cap, hist.drop_last());
        if hist.last().0 {
            after_insert(prev, cap, hist.last().1)
        } else {
            after_remove(prev, cap, hist.last().1)
        }
    }
}

/// Insertions of `w` in `hist` minus its removals.
pub open spec fn net_times(hist: Seq<(bool, Seq<int>)>, w: Seq<int>) -> int
    decreases hist.len(),
{
    if hist.len() == 0 {
        0
    } else {
        net_times(hist.drop_last(), w) + if hist.last().1 == w {
            if hist.last().0 { 1int } else { -1int }
        } else {
            0int
        }
    }
}

/// Every removal in `hist` removes a value that was, at that point,
/// inserted more often than removed.
pub open spec fn removals_valid(hist: Seq<(bool, Seq<int>)>) -> bool {
    forall|i: int|
        0 <= i < hist.len() && !(#[trigger] hist[i]).0 ==> net_times(hist.take(i), hist[i].1) >= 1
}

/// The sum, over the steps of `hist`, of the increments (positive) and
/// decrements (negative) that they make at position `p`.
pub open spec fn net_hits(hist: Seq<(bool, Seq<int>)>, p: int) -> int
    decreases hist.len(),
{
    if hist.len() == 0 {
        0
    } else {
        net_hits(hist.drop_last(), p) + if hist.last().0 {
            hits(hist.last().1, p) as int
        } else {
            -(hits(hist.last().1, p) as int)
        }
    }
}

/// The part of `net_hits(hist, p)` owed to the values of `us`.
pub open spec fn weighted(hist: Seq<(bool, Seq<int>)>, us: Seq<Seq<int>>, p: int) -> int
    decreases us.len(),
{
    if us.len() == 0 {
        0
    } else {
        weighted(hist, us.drop_last(), p) + net_times(hist, us.last()) * hits(us.last(), p)
    }
}

proof fn lemma_valid_prefix(hist: Seq<(bool, Seq<int>)>)
    requires
        hist.len() > 0,
        removals_valid(hist),
    ensures
        removals_valid(hist.drop_last()),
        !hist.last().0 ==> net_times(hist.drop_last(), hist.last().1) >= 1,
{
    let prev = hist.drop_last();
    assert forall|i: int| 0 <= i < prev.len() && !(#[trigger] prev[i]).0 implies net_times(
        prev.take(i),
        prev[i].1,
    ) >= 1 by {
        assert(hist[i] == prev[i]);
        assert(prev.take(i) =~= hist.take(i));
    }
    assert(hist.take(hist.len() - 1) =~= prev);
    if !hist.last().0 {
        assert(!hist[hist.len() - 1].0);
    }
}

proof fn lemma_net_times_nonneg(hist: Seq<(bool, Seq<int>)>, u: Seq<int>)
    requires
        removals_valid(hist),
    ensures
        net_times(hist, u) >= 0,
    decreases hist.len(),
{
    if hist.len() > 0 {
        lemma_valid_prefix(hist);
        lemma_net_times_nonneg(hist.drop_last(), u);
    }
}

/// How one more step changes the part owed to distinct values `us`.
proof fn lemma_weighted_step(hist: Seq<(bool, Seq<int>)>, us: Seq<Seq<int>>, p: int)
    requires
        hist.len() > 0,
        us.no_duplicates(),
    ensures
        weighted(hist, us, p) == weighted(hist.drop_last(), us, p) + if us.contains(
            hist.last().1,
        ) {
            if hist.last().0 {
                hits(hist.last().1, p) as int
            } else {
                -(hits(hist.last().1, p) as int)
            }
        } else {
            0int
        },
    decreases us.len(),
{
    if us.len() > 0 {
        let rest = us.drop_last();
        assert(rest.no_duplicates());
        lemma_weighted_step(hist, rest, p);
        let u = hist.last().1;
        let x = us.last();
        let n = net_times(hist.drop_last(), x);
        let h = hits(x, p) as int;
        assert((n + 1) * h == n * h + h) by (nonlinear_arith);
        assert((n - 1) * h == n * h - h) by (nonlinear_arith);
        if x == u {
            assert(!rest.contains(u)) by {
                if rest.contains(u) {
                    let k = choose|k: int| 0 <= k < rest.len() && rest[k] == u;
                    assert(us[k] == us[us.len() - 1]);
                }
            }
        } else {
            assert(us.contains(u) == rest.contains(u)) by {
                if us.contains(u) {
                    let k = choose|k: int| 0 <= k < us.len() && us[k] == u;
                    assert(rest[k] == u);
                }
                if rest.contains(u) {
                    let k = choose|k: int| 0 <= k < rest.len() && rest[k] == u;
                    assert(us[k] == u);
                }
            }
        }
    }
}

proof fn lemma_weighted_empty(hist: Seq<(bool, Seq<int>)>, us: Seq<Seq<int>>, p: int)
    requires
        hist.len() == 0,
    ensures
        weighted(hist, us, p) == 0,
    decreases us.len(),
{
    if us.len() > 0 {
        lemma_weighted_empty(hist, us.drop_last(), p);
    }
}

/// Under valid removals, the net number of hits at a position covers the
/// part owed to any distinct values.
proof fn lemma_net_hits_cover(hist: Seq<(bool, Seq<int>)>, us: Seq<Seq<int>>, p: int)
    requires
        removals_valid(hist),
        us.no_duplicates(),
    ensures
        net_hits(hist, p) >= weighted(hist, us, p),
    decreases hist.len(),
{
    if hist.len() == 0 {
        lemma_weighted_empty(hist, us, p);
    } else {
        let prev = hist.drop_last();
        let u = hist.last().1;
        lemma_valid_prefix(hist);
        lemma_weighted_step(hist, us, p);
        if hist.last().0 || us.contains(u) {
            lemma_net_hits_cover(prev, us, p);
        } else {
            let more = us.push(u);
            assert(more.no_duplicates()) by {
                assert forall|a: int, b: int|
                    0 <= a < more.len() && 0 <= b < more.len() && a != b implies more[a]
                    != more[b] by {
                    if a < us.len() && b < us.len() {
                        assert(us[a] != us[b]);
                    } else if a < us.len() {
                        assert(us.contains(more[a]));
                    } else {
                        assert(us.contains(more[b]));
                    }
                }
            }
            lemma_net_hits_cover(prev, more, p);
            assert(more.drop_last() =~= us);
            let n = net_times(prev, u);
            let h = hits(u, p) as int;
            assert(n * h >= h) by (nonlinear_arith)
                requires
                    n >= 1,
                    h >= 0,
            ;
        }
    }
}

/// From zero, under valid removals, each counter is either at the cap or
/// exactly the net number of hits at its position.
proof fn lemma_applied_tracks_net(m: nat, cap: nat, hist: Seq<(bool, Seq<int>)>, p: int)
    requires
        cap >= 1,
        removals_valid(hist),
        0 <= p < m,
    ensures
        applied(zeros(m), cap, hist).len() == m,
        applied(zeros(m), cap, hist)[p] == cap || applied(zeros(m), cap, hist)[p] == net_hits(
            hist,
            p,
        ),
    decreases hist.len(),
{
    if hist.len() > 0 {
        lemma_valid_prefix(hist);
        lemma_applied_tracks_net(m, cap, hist.drop_last(), p);
        lemma_net_hits_cover(hist, seq![], p);
        assert(weighted(hist, seq![], p) == 0);
    }
}

/// Under valid removals from an empty filter, every counter at a position
/// of `w` is at least the net number of insertions of `w`, up to the cap.
pub proof fn lemma_counter_tracks_net(
    m: nat,
    cap: nat,
    hist: Seq<(bool, Seq<int>)>,
    w: Seq<int>,
    j: int,
)
    requires
        cap >= 1,
        removals_valid(hist),
        in_range(w, m),
        0 <= j < w.len(),
    ensures
        applied(zeros(m), cap, hist)[w[j]] >= if net_times(hist, w) <= cap {
            net_times(hist, w)
        } else {
            cap as int
        },
{
    let p = w[j];
    lemma_applied_tracks_net(m, cap, hist, p);
    let us = seq![w];
    assert(us.no_duplicates());
    lemma_net_hits_cover(hist, us, p);
    assert(us.drop_last() =~= Seq::<Seq<int>>::empty());
    assert(us.last() == w);
    assert(weighted(hist, us, p) == weighted(hist, us.drop_last(), p) + net_times(hist, w) * hits(
        w,
        p,
    ));
    lemma_net_times_nonneg(hist, w);
    lemma_hits_at(w, j);
    let n = net_times(hist, w);
    let h = hits(w, p) as int;
    assert(n * h >= n) by (nonlinear_arith)
        requires
            n >= 0,
            h >= 1,
    ;
}

/// No false negatives under removals: in a filter that started empty, where
/// every removal removed a value inserted more often than removed, a value
/// inserted more often than removed is found.
pub proof fn lemma_no_false_negatives_with_removals(
    m: nat,
    cap: nat,
    hist: Seq<(bool, Seq<int>)>,
    w: Seq<int>,
)
    requires
        cap >= 1,
        removals_valid(hist),
        in_range(w, m),
        net_times(hist, w) >= 1,
    ensures
        all_present(applied(zeros(m), cap, hist), w),
{
    assert forall|j: int| 0 <= j < w.len() implies #[trigger] applied(zeros(m), cap, hist)[w[j]]
        > 0 by {
        lemma_counter_tracks_net(m, cap, hist, w, j);
    }
}

/// The count estimate is one-sided under removals: in a filter that started
/// empty, where every removal removed a value inserted more often than
/// removed, the smallest counter at the positions of `w` is at least its
/// insertions minus its removals, up to the cap.
pub proof fn lemma_count_overestimates_with_removals(
    m: nat,
    cap: nat,
    hist: Seq<(bool, Seq<int>)>,
    w: Seq<int>,
    v: nat,
)
    requires
        cap >= 1,
        removals_valid(hist),
        in_range(w, m),
        is_min_at(applied(zeros(m), cap, hist), w, v),
    ensures
        v >= if net_times(hist, w) <= cap { net_times(hist, w) } else { cap as int },
{
    let c = applied(zeros(m), cap, hist);
    let j = choose|j: int| 0 <= j < w.len() && v == #[trigger] c[w[j]];
    lemma_counter_tracks_net(m, cap, hist, w, j);
}

} // verus!
