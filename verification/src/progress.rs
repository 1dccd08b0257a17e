//! The progress ledger: a canonical set of written byte ranges.

use vstd::prelude::*;

verus! {

/// A half-open interval `[start, end)` of byte offsets.
#[derive(Clone, Copy, Debug, PartialEq, Eq, Structural)]
pub struct ProgressEntry {
    pub start: u64,
    pub end: u64,
}

impl ProgressEntry {
    /// Whether offset `x` lies inside the interval.
    pub open spec fn contains(self, x: int) -> bool {
        self.start <= x < self.end
    }

    /// Number of offsets inside the interval; an inverted pair holds none.
    pub open spec fn span(self) -> int {
        if self.start < self.end {
            self.end - self.start
        } else {
            0
        }
    }

    pub fn new(start: u64, end: u64) -> (r: Self)
        ensures
            r.start == start,
            r.end == end,
    {
        ProgressEntry { start, end }
    }

    /// Length in bytes.
    pub fn total(&self) -> (n: u64)
        ensures
            n == self.span(),
    {
        if self.start < self.end {
            self.end - self.start
        } else {
            0
        }
    }

    pub fn is_empty(&self) -> (b: bool)
        ensures
            b == (self.span() == 0),
    {
        self.start >= self.end
    }
}

/// Pairs of start and end offset as intervals.
pub open spec fn pairs_entries(p: Seq<(u64, u64)>) -> Seq<ProgressEntry> {
    Seq::new(p.len(), |i: int| ProgressEntry { start: p[i].0, end: p[i].1 })
}

/// Intervals as pairs of start and end offset.
pub open spec fn entries_pairs(v: Seq<ProgressEntry>) -> Seq<(u64, u64)> {
    Seq::new(v.len(), |i: int| (v[i].start, v[i].end))
}

/// Offset `x` lies in some interval of `v`.
pub open spec fn covers(v: Seq<ProgressEntry>, x: int) -> bool {
    exists|i: int| 0 <= i < v.len() && (#[trigger] v[i]).contains(x)
}

/// The set of offsets that `v` covers.
pub open spec fn covered_set(v: Seq<ProgressEntry>) -> Set<int> {
    Set::new(|x: int| covers(v, x))
}

/// Canonical form: every interval is non-empty, and each one ends strictly
/// before any later one starts, so the intervals are sorted and neither
/// overlap nor touch.
pub open spec fn is_ledger(v: Seq<ProgressEntry>) -> bool {
    &&& forall|i: int| 0 <= i < v.len() ==> (#[trigger] v[i]).start < v[i].end
    &&& forall|i: int, j: int|
        0 <= i < j < v.len() ==> (#[trigger] v[i]).end < (#[trigger] v[j]).start
}

/// Every interval of `v` ends at or before `limit`.
pub open spec fn within(v: Seq<ProgressEntry>, limit: int) -> bool {
    forall|i: int| 0 <= i < v.len() ==> (#[trigger] v[i]).end <= limit
}

/// Sum of the interval lengths.
pub open spec fn total_len(v: Seq<ProgressEntry>) -> int
    decreases v.len(),
{
    if v.len() == 0 {
        0
    } else {
        total_len(v.drop_last()) + v.last().span()
    }
}

/// The smallest interval that holds both `a` and `b`.
pub open spec fn hull(a: ProgressEntry, b: ProgressEntry) -> ProgressEntry {
    ProgressEntry {
        start: if a.start <= b.start { a.start } else { b.start },
        end: if a.end >= b.end { a.end } else { b.end },
    }
}

/// Inserting a non-empty interval `r` into a ledger: intervals that end
/// before `r` starts stay in front, every interval that overlaps or touches
/// `r` is fused with it, and the rest follows unchanged.
pub open spec fn insert_range(v: Seq<ProgressEntry>, r: ProgressEntry) -> Seq<ProgressEntry>
    decreases v.len(),
{
    if v.len() == 0 {
        seq![r]
    } else if v[0].end < r.start {
        seq![v[0]] + insert_range(v.drop_first(), r)
    } else if r.end < v[0].start {
        seq![r] + v
    } else {
        insert_range(v.drop_first(), hull(v[0], r))
    }
}

/// What `merge` computes: an empty interval changes nothing.
pub open spec fn merge_spec(v: Seq<ProgressEntry>, r: ProgressEntry) -> Seq<ProgressEntry> {
    if r.start < r.end {
        insert_range(v, r)
    } else {
        v
    }
}

/// Merging a list of intervals one after another, first to last.
pub open spec fn merge_all(base: Seq<ProgressEntry>, rs: Seq<ProgressEntry>) -> Seq<ProgressEntry>
    decreases rs.len(),
{
    if rs.len() == 0 {
        base
    } else {
        merge_all(merge_spec(base, rs[0]), rs.drop_first())
    }
}


/// An interval list with one more interval in front covers what the
/// interval and the list cover.
pub proof fn lemma_covers_cons(a: ProgressEntry, t: Seq<ProgressEntry>, x: int)
    ensures
        covers(seq![a] + t, x) <==> (a.contains(x) || covers(t, x)),
{
    let w = seq![a] + t;
    if covers(w, x) {
        let i = choose|i: int| 0 <= i < w.len() && (#[trigger] w[i]).contains(x);
        if i > 0 {
            assert(t[i - 1] == w[i]);
            assert(t[i - 1].contains(x));
        } else {
            assert(w[0] == a);
        }
    }
    if a.contains(x) {
        assert(w[0] == a);
        assert(w[0].contains(x));
    }
    if covers(t, x) {
        let i = choose|i: int| 0 <= i < t.len() && (#[trigger] t[i]).contains(x);
        assert(w[i + 1] == t[i]);
        assert(w[i + 1].contains(x));
    }
}

/// A non-empty list covers what its head and its tail cover.
pub proof fn lemma_covers_head_tail(v: Seq<ProgressEntry>, x: int)
    requires
        v.len() > 0,
    ensures
        covers(v, x) <==> (v[0].contains(x) || covers(v.drop_first(), x)),
{
    assert(v =~= seq![v[0]] + v.drop_first());
    lemma_covers_cons(v[0], v.drop_first(), x);
}

/// A non-empty list covers what its last interval and the rest cover.
pub proof fn lemma_covers_last(v: Seq<ProgressEntry>, x: int)
    requires
        v.len() > 0,
    ensures
        covers(v, x) <==> (v.last().contains(x) || covers(v.drop_last(), x)),
{
    let t = v.drop_last();
    if covers(v, x) {
        let i = choose|i: int| 0 <= i < v.len() && (#[trigger] v[i]).contains(x);
        if i < v.len() - 1 {
            assert(t[i] == v[i]);
            assert(t[i].contains(x));
        }
    }
    if covers(t, x) {
        let i = choose|i: int| 0 <= i < t.len() && (#[trigger] t[i]).contains(x);
        assert(v[i] == t[i]);
        assert(v[i].contains(x));
    }
    if v.last().contains(x) {
        assert(v[v.len() - 1].contains(x));
    }
}

/// The tail of a ledger is a ledger.
pub proof fn lemma_ledger_tail(v: Seq<ProgressEntry>)
    requires
        is_ledger(v),
        v.len() > 0,
    ensures
        is_ledger(v.drop_first()),
{
    let t = v.drop_first();
    assert forall|i: int| 0 <= i < t.len() implies (#[trigger] t[i]).start < t[i].end by {
        assert(t[i] == v[i + 1]);
    }
    assert forall|i: int, j: int| 0 <= i < j < t.len() implies (#[trigger] t[i]).end < (
    #[trigger] t[j]).start by {
        assert(t[i] == v[i + 1]);
        assert(t[j] == v[j + 1]);
    }
}

/// Inserting a non-empty interval into a ledger gives the ledger that
/// covers exactly what the ledger and the interval cover.
pub proof fn lemma_insert_range(v: Seq<ProgressEntry>, r: ProgressEntry)
    requires
        is_ledger(v),
        r.start < r.end,
    ensures
        is_ledger(insert_range(v, r)),
        insert_range(v, r).len() > 0,
        insert_range(v, r)[0].start == (if v.len() > 0 && v[0].start < r.start {
            v[0].start
        } else {
            r.start
        }),
        forall|x: int| covers(insert_range(v, r), x) <==> (covers(v, x) || r.contains(x)),
    decreases v.len(),
{
    let w = insert_range(v, r);
    if v.len() == 0 {
        assert forall|x: int| covers(w, x) <==> (covers(v, x) || r.contains(x)) by {
            assert(w =~= seq![r] + v);
            lemma_covers_cons(r, v, x);
        }
    } else {
        let t = v.drop_first();
        lemma_ledger_tail(v);
        if t.len() > 0 {
            assert(t[0] == v[1]);
        }
        if v[0].end < r.start {
            let u = insert_range(t, r);
            lemma_insert_range(t, r);
            assert(w == seq![v[0]] + u);
            assert forall|i: int, j: int| 0 <= i < j < w.len() implies (#[trigger] w[i]).end < (
            #[trigger] w[j]).start by {
                if i == 0 {
                    assert(w[j] == u[j - 1]);
                    if j - 1 > 0 {
                        assert(u[0].end < u[j - 1].start);
                    }
                } else {
                    assert(w[i] == u[i - 1]);
                    assert(w[j] == u[j - 1]);
                }
            }
            assert forall|i: int| 0 <= i < w.len() implies (#[trigger] w[i]).start < w[i].end by {
                if i > 0 {
                    assert(w[i] == u[i - 1]);
                }
            }
            assert forall|x: int| covers(w, x) <==> (covers(v, x) || r.contains(x)) by {
                lemma_covers_cons(v[0], u, x);
                lemma_covers_head_tail(v, x);
            }
        } else if r.end < v[0].start {
            assert(w == seq![r] + v);
            assert forall|i: int, j: int| 0 <= i < j < w.len() implies (#[trigger] w[i]).end < (
            #[trigger] w[j]).start by {
                if i == 0 {
                    assert(w[j] == v[j - 1]);
                    if j - 1 > 0 {
                        assert(v[0].end < v[j - 1].start);
                    }
                } else {
                    assert(w[i] == v[i - 1]);
                    assert(w[j] == v[j - 1]);
                }
            }
            assert forall|i: int| 0 <= i < w.len() implies (#[trigger] w[i]).start < w[i].end by {
                if i > 0 {
                    assert(w[i] == v[i - 1]);
                }
            }
            assert forall|x: int| covers(w, x) <==> (covers(v, x) || r.contains(x)) by {
                lemma_covers_cons(r, v, x);
            }
        } else {
            let h = hull(v[0], r);
            lemma_insert_range(t, h);
            assert(w == insert_range(t, h));
            assert forall|x: int| covers(w, x) <==> (covers(v, x) || r.contains(x)) by {
                lemma_covers_head_tail(v, x);
                assert(covers(insert_range(t, h), x) <==> (covers(t, x) || h.contains(x)));
                assert(h.contains(x) <==> (v[0].contains(x) || r.contains(x)));
            }
        }
    }
}

/// Merging any interval into a ledger gives a ledger that covers what the
/// ledger and the interval cover.
pub proof fn lemma_merge_spec(v: Seq<ProgressEntry>, r: ProgressEntry)
    requires
        is_ledger(v),
    ensures
        is_ledger(merge_spec(v, r)),
        forall|x: int| covers(merge_spec(v, r), x) <==> (covers(v, x) || r.contains(x)),
{
    if r.start < r.end {
        lemma_insert_range(v, r);
    }
}


/// A prefix of a ledger is a ledger.
pub proof fn lemma_ledger_prefix(v: Seq<ProgressEntry>, k: int)
    requires
        is_ledger(v),
        0 <= k <= v.len(),
    ensures
        is_ledger(v.subrange(0, k)),
{
    let t = v.subrange(0, k);
    assert forall|i: int| 0 <= i < t.len() implies (#[trigger] t[i]).start < t[i].end by {
        assert(t[i] == v[i]);
    }
    assert forall|i: int, j: int| 0 <= i < j < t.len() implies (#[trigger] t[i]).end < (
    #[trigger] t[j]).start by {
        assert(t[i] == v[i]);
        assert(t[j] == v[j]);
    }
}

/// The intervals of a ledger lie one after another, so their lengths add up
/// to no more than the distance from the first start to the last end.
pub proof fn lemma_total_bound(v: Seq<ProgressEntry>)
    requires
        is_ledger(v),
    ensures
        0 <= total_len(v),
        v.len() > 0 ==> total_len(v) <= v.last().end - v[0].start,
        v.len() == 0 ==> total_len(v) == 0,
    decreases v.len(),
{
    if v.len() > 0 {
        let t = v.drop_last();
        assert(t =~= v.subrange(0, v.len() - 1));
        lemma_ledger_prefix(v, v.len() - 1);
        lemma_total_bound(t);
        if t.len() > 0 {
            assert(t.last() == v[v.len() - 2]);
            assert(t[0] == v[0]);
            assert(v[v.len() - 2].end < v[v.len() - 1].start);
        }
    }
}

/// A ledger that stays below `limit` holds at most `limit` bytes.
pub proof fn lemma_total_within(v: Seq<ProgressEntry>, limit: int)
    requires
        is_ledger(v),
        within(v, limit),
    ensures
        0 <= total_len(v) <= limit || v.len() == 0,
        total_len(v) <= (if limit >= 0 { limit } else { 0 }),
{
    lemma_total_bound(v);
    if v.len() > 0 {
        assert(v.last() == v[v.len() - 1]);
        assert(v[v.len() - 1].end <= limit);
    }
}


/// The gap `[a, b)` as a one-element list if it is non-empty and at least
/// `min_gap` long; otherwise nothing.
pub open spec fn gap_if_long(a: u64, b: u64, min_gap: u64) -> Seq<ProgressEntry> {
    if a < b && b - a >= min_gap {
        seq![ProgressEntry { start: a, end: b }]
    } else {
        Seq::empty()
    }
}

/// The lower of two offsets.
pub open spec fn lower(a: u64, b: u64) -> u64 {
    if a <= b {
        a
    } else {
        b
    }
}

/// The complement of `v` inside `[cursor, total)`, without the gaps that
/// are shorter than `min_gap`. `cursor` is where the previous interval
/// ended.
pub open spec fn invert_from(v: Seq<ProgressEntry>, cursor: u64, total: u64, min_gap: u64) -> Seq<
    ProgressEntry,
>
    decreases v.len(),
{
    if v.len() == 0 {
        gap_if_long(cursor, total, min_gap)
    } else {
        gap_if_long(cursor, lower(v[0].start, total), min_gap) + invert_from(
            v.drop_first(),
            v[0].end,
            total,
            min_gap,
        )
    }
}

/// What `invert` computes: the uncovered stretches of `[0, total)` that are
/// at least `min_gap` long, lowest first.
pub open spec fn invert_spec(v: Seq<ProgressEntry>, total: u64, min_gap: u64) -> Seq<
    ProgressEntry,
> {
    invert_from(v, 0, total, min_gap)
}

/// No uncovered stretch of `[cursor, total)` is shorter than `min_gap`.
pub open spec fn no_short_gap_from(
    v: Seq<ProgressEntry>,
    cursor: u64,
    total: u64,
    min_gap: u64,
) -> bool
    decreases v.len(),
{
    if v.len() == 0 {
        cursor >= total || total - cursor >= min_gap
    } else {
        &&& (cursor >= lower(v[0].start, total) || lower(v[0].start, total) - cursor >= min_gap)
        &&& no_short_gap_from(v.drop_first(), v[0].end, total, min_gap)
    }
}

/// No uncovered stretch of `[0, total)` is shorter than `min_gap`, so that
/// inverting drops nothing.
pub open spec fn no_short_gap(v: Seq<ProgressEntry>, total: u64, min_gap: u64) -> bool {
    no_short_gap_from(v, 0, total, min_gap)
}

/// The ledger that covers `[0, total)`.
pub open spec fn full_ledger(total: u64) -> Seq<ProgressEntry> {
    if total == 0 {
        Seq::empty()
    } else {
        seq![ProgressEntry { start: 0, end: total }]
    }
}

/// Two lists one after the other cover what either covers.
pub proof fn lemma_covers_concat(a: Seq<ProgressEntry>, b: Seq<ProgressEntry>, x: int)
    ensures
        covers(a + b, x) <==> (covers(a, x) || covers(b, x)),
{
    let w = a + b;
    if covers(w, x) {
        let i = choose|i: int| 0 <= i < w.len() && (#[trigger] w[i]).contains(x);
        if i < a.len() {
            assert(a[i] == w[i]);
            assert(a[i].contains(x));
        } else {
            assert(b[i - a.len()] == w[i]);
            assert(b[i - a.len()].contains(x));
        }
    }
    if covers(a, x) {
        let i = choose|i: int| 0 <= i < a.len() && (#[trigger] a[i]).contains(x);
        assert(w[i] == a[i]);
        assert(w[i].contains(x));
    }
    if covers(b, x) {
        let i = choose|i: int| 0 <= i < b.len() && (#[trigger] b[i]).contains(x);
        assert(w[i + a.len()] == b[i]);
        assert(w[i + a.len()].contains(x));
    }
}

/// In a ledger nothing below the first start is covered.
pub proof fn lemma_ledger_lower_bound(v: Seq<ProgressEntry>, x: int)
    requires
        is_ledger(v),
        covers(v, x),
    ensures
        v.len() > 0,
        v[0].start <= x,
{
    let i = choose|i: int| 0 <= i < v.len() && (#[trigger] v[i]).contains(x);
    if i > 0 {
        assert(v[0].end < v[i].start);
    }
}

/// The complement of a ledger is a ledger; it covers only uncovered
/// offsets of `[cursor, total)`, and all of them where no gap is short.
pub proof fn lemma_invert_from(v: Seq<ProgressEntry>, cursor: u64, total: u64, min_gap: u64)
    requires
        is_ledger(v),
        v.len() > 0 ==> cursor <= v[0].start,
    ensures
        is_ledger(invert_from(v, cursor, total, min_gap)),
        within(invert_from(v, cursor, total, min_gap), total as int),
        invert_from(v, cursor, total, min_gap).len() > 0 ==> cursor <= invert_from(
            v,
            cursor,
            total,
            min_gap,
        )[0].start,
        forall|x: int| #[trigger]
            covers(invert_from(v, cursor, total, min_gap), x) ==> cursor <= x < total && !covers(
                v,
                x,
            ),
        no_short_gap_from(v, cursor, total, min_gap) ==> forall|x: int|
            cursor <= x < total && !covers(v, x) ==> #[trigger] covers(
                invert_from(v, cursor, total, min_gap),
                x,
            ),
    decreases v.len(),
{
    let w = invert_from(v, cursor, total, min_gap);
    if v.len() == 0 {
        let g = gap_if_long(cursor, total, min_gap);
        assert(w == g);
        assert forall|x: int| #[trigger] covers(w, x) implies cursor <= x < total && !covers(
            v,
            x,
        ) by {
            let i = choose|i: int| 0 <= i < w.len() && (#[trigger] w[i]).contains(x);
            assert(w[i].contains(x));
        }
        if no_short_gap_from(v, cursor, total, min_gap) {
            assert forall|x: int| cursor <= x < total && !covers(v, x) implies #[trigger] covers(
                w,
                x,
            ) by {
                assert(w[0].contains(x));
            }
        }
    } else {
        let b = lower(v[0].start, total);
        let g = gap_if_long(cursor, b, min_gap);
        let t = v.drop_first();
        let u = invert_from(t, v[0].end, total, min_gap);
        lemma_ledger_tail(v);
        if t.len() > 0 {
            assert(t[0] == v[1]);
            assert(v[0].end < v[1].start);
        }
        lemma_invert_from(t, v[0].end, total, min_gap);
        assert(w == g + u);
        assert forall|i: int| 0 <= i < w.len() implies (#[trigger] w[i]).start < w[i].end by {
            if i >= g.len() {
                assert(w[i] == u[i - g.len()]);
            }
        }
        assert forall|i: int, j: int| 0 <= i < j < w.len() implies (#[trigger] w[i]).end < (
        #[trigger] w[j]).start by {
            if i < g.len() {
                assert(w[j] == u[j - g.len()]);
                if j - g.len() > 0 {
                    assert(u[0].end < u[j - g.len()].start);
                }
            } else {
                assert(w[i] == u[i - g.len()]);
                assert(w[j] == u[j - g.len()]);
            }
        }
        assert forall|i: int| 0 <= i < w.len() implies (#[trigger] w[i]).end <= total by {
            if i >= g.len() {
                assert(w[i] == u[i - g.len()]);
            }
        }
        if w.len() > 0 {
            if g.len() == 0 {
                assert(w[0] == u[0]);
            }
        }
        assert forall|x: int| #[trigger] covers(w, x) implies cursor <= x < total && !covers(
            v,
            x,
        ) by {
            lemma_covers_concat(g, u, x);
            lemma_covers_head_tail(v, x);
            if covers(g, x) {
                let i = choose|i: int| 0 <= i < g.len() && (#[trigger] g[i]).contains(x);
                assert(g[i].contains(x));
                if covers(v, x) {
                    lemma_ledger_lower_bound(v, x);
                }
            } else {
                assert(covers(u, x));
            }
        }
        if no_short_gap_from(v, cursor, total, min_gap) {
            assert forall|x: int| cursor <= x < total && !covers(v, x) implies #[trigger] covers(
                w,
                x,
            ) by {
                lemma_covers_concat(g, u, x);
                lemma_covers_head_tail(v, x);
                if x < v[0].start {
                    assert(g[0].contains(x));
                } else {
                    assert(covers(u, x));
                }
            }
        }
    }
}

} // verus!
