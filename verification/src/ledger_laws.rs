//! What holds of ledgers in general: a ledger is determined by the offsets
//! it covers, merging computes unions, and inverting computes complements.

use crate::progress::{
    covered_set, covers, full_ledger, invert_spec, is_ledger, lemma_covers_head_tail,
    lemma_covers_last, lemma_invert_from, lemma_ledger_lower_bound, lemma_ledger_prefix,
    lemma_ledger_tail, lemma_merge_spec, merge_all, merge_spec, no_short_gap, no_short_gap_from,
    total_len, within, ProgressEntry,
};
use vstd::prelude::*;
use vstd::set_lib::{lemma_int_range, lemma_set_disjoint_lens, set_int_range};

verus! {

/// Two ledgers that cover the same offsets are the same list.
pub proof fn lemma_ledger_unique(a: Seq<ProgressEntry>, b: Seq<ProgressEntry>)
    requires
        is_ledger(a),
        is_ledger(b),
        forall|x: int| covers(a, x) <==> covers(b, x),
    ensures
        a == b,
    decreases a.len(),
{
    if a.len() == 0 {
        if b.len() > 0 {
            assert(b[0].contains(b[0].start as int));
            assert(covers(b, b[0].start as int));
            assert(covers(a, b[0].start as int));
        }
        assert(a =~= b);
    } else if b.len() == 0 {
        assert(a[0].contains(a[0].start as int));
        assert(covers(a, a[0].start as int));
        assert(covers(b, a[0].start as int));
    } else {
        assert(a[0].contains(a[0].start as int));
        assert(covers(b, a[0].start as int));
        lemma_ledger_lower_bound(b, a[0].start as int);
        assert(b[0].contains(b[0].start as int));
        assert(covers(a, b[0].start as int));
        lemma_ledger_lower_bound(a, b[0].start as int);
        assert(a[0].start == b[0].start);
        if a[0].end < b[0].end {
            let x = a[0].end as int;
            assert(b[0].contains(x));
            assert(covers(a, x));
            let i = choose|i: int| 0 <= i < a.len() && (#[trigger] a[i]).contains(x);
            if i > 0 {
                assert(a[0].end < a[i].start);
            }
            assert(false);
        }
        if b[0].end < a[0].end {
            let x = b[0].end as int;
            assert(a[0].contains(x));
            assert(covers(b, x));
            let i = choose|i: int| 0 <= i < b.len() && (#[trigger] b[i]).contains(x);
            if i > 0 {
                assert(b[0].end < b[i].start);
            }
            assert(false);
        }
        let ta = a.drop_first();
        let tb = b.drop_first();
        lemma_ledger_tail(a);
        lemma_ledger_tail(b);
        assert forall|x: int| covers(ta, x) <==> covers(tb, x) by {
            lemma_covers_head_tail(a, x);
            lemma_covers_head_tail(b, x);
            if covers(ta, x) {
                lemma_ledger_lower_bound(ta, x);
                assert(ta[0] == a[1]);
                assert(a[0].end < a[1].start);
            }
            if covers(tb, x) {
                lemma_ledger_lower_bound(tb, x);
                assert(tb[0] == b[1]);
                assert(b[0].end < b[1].start);
            }
        }
        lemma_ledger_unique(ta, tb);
        assert(a =~= seq![a[0]] + ta);
        assert(b =~= seq![b[0]] + tb);
    }
}

/// Merging a list of intervals into a ledger gives a ledger that covers
/// what the ledger and the intervals cover.
pub proof fn lemma_merge_all(base: Seq<ProgressEntry>, rs: Seq<ProgressEntry>)
    requires
        is_ledger(base),
    ensures
        is_ledger(merge_all(base, rs)),
        forall|x: int| covers(merge_all(base, rs), x) <==> (covers(base, x) || covers(rs, x)),
    decreases rs.len(),
{
    if rs.len() == 0 {
        assert forall|x: int| !covers(rs, x) by {}
    } else {
        let next = merge_spec(base, rs[0]);
        lemma_merge_spec(base, rs[0]);
        lemma_merge_all(next, rs.drop_first());
        assert forall|x: int| covers(merge_all(base, rs), x) <==> (covers(base, x) || covers(
            rs,
            x,
        )) by {
            lemma_covers_head_tail(rs, x);
            assert(covers(next, x) <==> (covers(base, x) || rs[0].contains(x)));
        }
    }
}

/// A ledger covers as many offsets as its interval lengths add up to.
pub proof fn lemma_covered_count(v: Seq<ProgressEntry>)
    requires
        is_ledger(v),
    ensures
        covered_set(v).finite(),
        covered_set(v).len() == total_len(v),
    decreases v.len(),
{
    if v.len() == 0 {
        assert(covered_set(v) =~= Set::<int>::empty());
    } else {
        let t = v.drop_last();
        let e = v.last();
        assert(t =~= v.subrange(0, v.len() - 1));
        lemma_ledger_prefix(v, v.len() - 1);
        lemma_covered_count(t);
        let r = set_int_range(e.start as int, e.end as int);
        lemma_int_range(e.start as int, e.end as int);
        assert forall|x: int| covered_set(v).contains(x) <==> (covered_set(t) + r).contains(
            x,
        ) by {
            lemma_covers_last(v, x);
        }
        assert(covered_set(v) =~= covered_set(t) + r);
        assert forall|x: int| !(covered_set(t).contains(x) && r.contains(x)) by {
            if covers(t, x) && r.contains(x) {
                let i = choose|i: int| 0 <= i < t.len() && (#[trigger] t[i]).contains(x);
                assert(t[i] == v[i]);
                assert(v[i].end < v[v.len() - 1].start);
            }
        }
        assert(covered_set(t).disjoint(r));
        lemma_set_disjoint_lens(covered_set(t), r);
    }
}

/// Whatever intervals are merged into an empty ledger, in whatever order:
/// the result is sorted, no two of its intervals overlap or touch, it
/// covers exactly the union of the inputs, and its total is the number of
/// offsets in that union.
pub proof fn lemma_merges_from_empty(inputs: Seq<ProgressEntry>)
    ensures
        is_ledger(merge_all(Seq::empty(), inputs)),
        forall|x: int| covers(merge_all(Seq::empty(), inputs), x) <==> covers(inputs, x),
        covered_set(inputs).finite(),
        total_len(merge_all(Seq::empty(), inputs)) == covered_set(inputs).len(),
{
    let e = Seq::<ProgressEntry>::empty();
    let l = merge_all(e, inputs);
    lemma_merge_all(e, inputs);
    assert forall|x: int| covers(l, x) <==> covers(inputs, x) by {
        assert(!covers(e, x));
    }
    lemma_covered_count(l);
    assert(covered_set(l) =~= covered_set(inputs));
}

/// With a window of at most one byte no gap is short.
pub proof fn lemma_no_short_gap_small(
    v: Seq<ProgressEntry>,
    cursor: u64,
    total: u64,
    min_gap: u64,
)
    requires
        min_gap <= 1,
    ensures
        no_short_gap_from(v, cursor, total, min_gap),
    decreases v.len(),
{
    if v.len() > 0 {
        lemma_no_short_gap_small(v.drop_first(), v[0].end, total, min_gap);
    }
}

/// Inverting a ledger inside `[0, total)` and merging what comes out back
/// into the ledger covers `[0, total)` exactly, provided the ledger stays
/// inside `[0, total)` and none of its gaps is shorter than `min_gap` (a
/// shorter gap is not handed out as work, so it would stay open).
pub proof fn lemma_invert_then_merge_is_full(p: Seq<ProgressEntry>, total: u64, min_gap: u64)
    requires
        is_ledger(p),
        within(p, total as int),
        no_short_gap(p, total, min_gap),
    ensures
        merge_all(p, invert_spec(p, total, min_gap)) == full_ledger(total),
{
    let c = invert_spec(p, total, min_gap);
    let m = merge_all(p, c);
    let f = full_ledger(total);
    lemma_invert_from(p, 0, total, min_gap);
    lemma_merge_all(p, c);
    assert forall|x: int| covers(m, x) <==> covers(f, x) by {
        if covers(p, x) {
            let i = choose|i: int| 0 <= i < p.len() && (#[trigger] p[i]).contains(x);
            assert(p[i].end <= total);
        }
        if covers(f, x) {
            let i = choose|i: int| 0 <= i < f.len() && (#[trigger] f[i]).contains(x);
            assert(f[i].contains(x));
        }
        if 0 <= x < total {
            assert(f[0].contains(x));
            if !covers(p, x) {
                assert(covers(c, x));
            }
        }
        if covers(c, x) {
            assert(0 <= x < total);
        }
    }
    lemma_ledger_unique(m, f);
}

/// A ledger that covers nothing at or above `limit` has all its intervals
/// end at or before `limit`.
pub proof fn lemma_within_by_covers(v: Seq<ProgressEntry>, limit: int)
    requires
        is_ledger(v),
        forall|x: int| covers(v, x) ==> x < limit,
    ensures
        within(v, limit),
{
    assert forall|i: int| 0 <= i < v.len() implies (#[trigger] v[i]).end <= limit by {
        assert(v[i].contains(v[i].end - 1));
        assert(covers(v, v[i].end - 1));
    }
}

/// Merging an interval that ends at or before `limit` into a ledger that
/// stays below `limit` gives a ledger that stays below `limit`, so its total
/// never exceeds `limit`.
pub proof fn lemma_merge_within(v: Seq<ProgressEntry>, r: ProgressEntry, limit: int)
    requires
        is_ledger(v),
        within(v, limit),
        r.start < r.end ==> r.end <= limit,
    ensures
        within(merge_spec(v, r), limit),
        total_len(merge_spec(v, r)) <= (if limit >= 0 { limit } else { 0 }),
{
    let w = merge_spec(v, r);
    lemma_merge_spec(v, r);
    assert forall|x: int| covers(w, x) implies x < limit by {
        if covers(v, x) {
            let i = choose|i: int| 0 <= i < v.len() && (#[trigger] v[i]).contains(x);
            assert(v[i].end <= limit);
        }
    }
    lemma_within_by_covers(w, limit);
    crate::progress::lemma_total_within(w, limit);
}

} // verus!
