//! `ProgressSet`, the executable ledger of written byte ranges.

use crate::progress::{
    covers, entries_pairs, full_ledger, gap_if_long, insert_range, invert_from, invert_spec,
    is_ledger, lemma_invert_from, lemma_merge_spec, merge_all, merge_spec, no_short_gap,
    pairs_entries, total_len, within, ProgressEntry,
};
use vstd::prelude::*;

verus! {

/// An ordered list of byte ranges in canonical form: sorted by start, with
/// no two ranges overlapping or touching.
#[derive(Debug, PartialEq, Eq)]
pub struct ProgressSet {
    entries: Vec<ProgressEntry>,
}

impl View for ProgressSet {
    type V = Seq<ProgressEntry>;

    closed spec fn view(&self) -> Seq<ProgressEntry> {
        self.entries@
    }
}

impl ProgressSet {
    /// The invariant of the type: the ranges are in canonical form.
    pub open spec fn wf(&self) -> bool {
        is_ledger(self@)
    }

    /// The empty ledger.
    pub fn new() -> (s: Self)
        ensures
            s.wf(),
            s@ == Seq::<ProgressEntry>::empty(),
    {
        ProgressSet { entries: Vec::new() }
    }

    /// Number of ranges.
    pub fn len(&self) -> (n: usize)
        ensures
            n == self@.len(),
    {
        self.entries.len()
    }

    pub fn is_empty(&self) -> (b: bool)
        ensures
            b == (self@.len() == 0),
    {
        self.entries.len() == 0
    }

    /// The `i`-th range, counted from the lowest offsets.
    pub fn get(&self, i: usize) -> (e: Option<ProgressEntry>)
        ensures
            e == (if i < self@.len() {
                Some(self@[i as int])
            } else {
                None
            }),
    {
        if i < self.entries.len() {
            Some(self.entries[i])
        } else {
            None
        }
    }

    /// The ranges, lowest first.
    pub fn entries(&self) -> (v: &Vec<ProgressEntry>)
        ensures
            v@ == self@,
    {
        &self.entries
    }

    /// Absorbs `r`: ranges that overlap or touch it are fused with it, so
    /// the ledger afterwards covers what it covered before and `r`, and
    /// nothing else. An empty `r` leaves the ledger as it was.
    pub fn merge(&mut self, r: ProgressEntry)
        requires
            old(self).wf(),
        ensures
            final(self).wf(),
            final(self)@ == merge_spec(old(self)@, r),
            forall|x: int| covers(final(self)@, x) <==> (covers(old(self)@, x) || r.contains(x)),
    {
        proof {
            lemma_merge_spec(self@, r);
        }
        if r.start >= r.end {
            return ;
        }
        let ghost v = self@;
        let n = self.entries.len();
        let mut out: Vec<ProgressEntry> = Vec::new();
        let mut cur = r;
        let mut i: usize = 0;
        proof {
            assert(v.subrange(0, n as int) =~= v);
            assert(out@ + insert_range(v, r) =~= insert_range(v, r));
        }
        while i < n && self.entries[i].end < cur.start
            invariant
                n == v.len(),
                self@ == v,
                is_ledger(v),
                cur == r,
                0 <= i <= n,
                insert_range(v, r) == out@ + insert_range(v.subrange(i as int, n as int), r),
            decreases n - i,
        {
            proof {
                let s = v.subrange(i as int, n as int);
                assert(s[0] == v[i as int]);
                assert(s.drop_first() =~= v.subrange(i + 1, n as int));
                assert(out@ + (seq![v[i as int]] + insert_range(s.drop_first(), r)) =~= out@.push(
                    v[i as int],
                ) + insert_range(s.drop_first(), r));
            }
            out.push(self.entries[i]);
            i += 1;
        }
        while i < n && self.entries[i].start <= cur.end
            invariant
                n == v.len(),
                self@ == v,
                is_ledger(v),
                cur.start < cur.end,
                0 <= i <= n,
                i < n ==> v[i as int].end >= cur.start,
                insert_range(v, r) == out@ + insert_range(v.subrange(i as int, n as int), cur),
            decreases n - i,
        {
            let e = self.entries[i];
            proof {
                let s = v.subrange(i as int, n as int);
                assert(s[0] == v[i as int]);
                assert(s.drop_first() =~= v.subrange(i + 1, n as int));
                if i + 1 < n {
                    assert(v[i as int].end < v[i + 1].start);
                }
            }
            cur = ProgressEntry {
                start: if e.start <= cur.start { e.start } else { cur.start },
                end: if e.end >= cur.end { e.end } else { cur.end },
            };
            i += 1;
        }
        proof {
            let s = v.subrange(i as int, n as int);
            if i < n {
                assert(s[0] == v[i as int]);
                assert(insert_range(s, cur) == seq![cur] + s);
            } else {
                assert(insert_range(s, cur) == seq![cur]);
                assert(seq![cur] =~= seq![cur] + s);
            }
            assert(out@ + (seq![cur] + s) =~= out@.push(cur) + s);
        }
        out.push(cur);
        while i < n
            invariant
                n == v.len(),
                self@ == v,
                0 <= i <= n,
                insert_range(v, r) == out@ + v.subrange(i as int, n as int),
            decreases n - i,
        {
            proof {
                let s = v.subrange(i as int, n as int);
                assert(out@ + s =~= out@.push(v[i as int]) + v.subrange(i + 1, n as int));
            }
            out.push(self.entries[i]);
            i += 1;
        }
        assert(out@ + v.subrange(n as int, n as int) =~= out@);
        self.entries = out;
    }

    /// Number of bytes that the ledger covers.
    pub fn total(&self) -> (t: u64)
        requires
            self.wf(),
        ensures
            t == total_len(self@),
    {
        let ghost v = self@;
        let n = self.entries.len();
        let mut sum: u64 = 0;
        let mut i: usize = 0;
        while i < n
            invariant
                n == v.len(),
                self@ == v,
                is_ledger(v),
                0 <= i <= n,
                sum == total_len(v.subrange(0, i as int)),
                i > 0 ==> sum <= v[i - 1].end,
            decreases n - i,
        {
            let e = self.entries[i];
            proof {
                let s = v.subrange(0, i + 1);
                assert(s.drop_last() =~= v.subrange(0, i as int));
                assert(s.last() == v[i as int]);
                if i > 0 {
                    assert(v[i - 1].end < v[i as int].start);
                }
            }
            sum = sum + (e.end - e.start);
            i += 1;
        }
        assert(v.subrange(0, n as int) =~= v);
        sum
    }

    /// The work that is left inside `[0, total)`: every uncovered stretch
    /// that is at least `min_gap` long, lowest first. A shorter stretch is
    /// left out, as if the covered range before it reached across it.
    pub fn invert(&self, total: u64, min_gap: u64) -> (out: ProgressSet)
        requires
            self.wf(),
        ensures
            out.wf(),
            out@ == invert_spec(self@, total, min_gap),
            within(out@, total as int),
            forall|x: int| #[trigger] covers(out@, x) ==> 0 <= x < total && !covers(self@, x),
            no_short_gap(self@, total, min_gap) ==> forall|x: int|
                0 <= x < total && !covers(self@, x) ==> #[trigger] covers(out@, x),
    {
        proof {
            lemma_invert_from(self@, 0, total, min_gap);
        }
        let ghost v = self@;
        let n = self.entries.len();
        let mut out: Vec<ProgressEntry> = Vec::new();
        let mut cursor: u64 = 0;
        let mut i: usize = 0;
        proof {
            assert(v.subrange(0, n as int) =~= v);
            assert(out@ + invert_from(v, 0, total, min_gap) =~= invert_from(v, 0, total, min_gap));
        }
        while i < n
            invariant
                n == v.len(),
                self@ == v,
                0 <= i <= n,
                invert_spec(v, total, min_gap) == out@ + invert_from(
                    v.subrange(i as int, n as int),
                    cursor,
                    total,
                    min_gap,
                ),
            decreases n - i,
        {
            let e = self.entries[i];
            let b = if e.start <= total { e.start } else { total };
            proof {
                let s = v.subrange(i as int, n as int);
                assert(s[0] == v[i as int]);
                assert(s.drop_first() =~= v.subrange(i + 1, n as int));
                let g = gap_if_long(cursor, b, min_gap);
                let rest = invert_from(s.drop_first(), e.end, total, min_gap);
                assert(out@ + (g + rest) =~= (out@ + g) + rest);
                if cursor < b && b - cursor >= min_gap {
                    assert(out@ + g =~= out@.push(ProgressEntry { start: cursor, end: b }));
                } else {
                    assert(out@ + g =~= out@);
                }
            }
            if cursor < b && b - cursor >= min_gap {
                out.push(ProgressEntry { start: cursor, end: b });
            }
            cursor = e.end;
            i += 1;
        }
        proof {
            let s = v.subrange(n as int, n as int);
            let g = gap_if_long(cursor, total, min_gap);
            assert(invert_from(s, cursor, total, min_gap) == g);
            if cursor < total && total - cursor >= min_gap {
                assert(out@ + g =~= out@.push(ProgressEntry { start: cursor, end: total }));
            } else {
                assert(out@ + g =~= out@);
            }
        }
        if cursor < total && total - cursor >= min_gap {
            out.push(ProgressEntry { start: cursor, end: total });
        }
        ProgressSet { entries: out }
    }

    /// The ledger that results from merging `ranges` one after another into
    /// an empty ledger.
    pub fn from_ranges(ranges: &Vec<ProgressEntry>) -> (s: Self)
        ensures
            s.wf(),
            s@ == merge_all(Seq::empty(), ranges@),
    {
        let mut acc = ProgressSet::new();
        let n = ranges.len();
        let mut i: usize = 0;
        assert(ranges@.subrange(0, n as int) =~= ranges@);
        while i < n
            invariant
                n == ranges@.len(),
                0 <= i <= n,
                acc.wf(),
                merge_all(Seq::empty(), ranges@) == merge_all(
                    acc@,
                    ranges@.subrange(i as int, n as int),
                ),
            decreases n - i,
        {
            proof {
                let s = ranges@.subrange(i as int, n as int);
                assert(s[0] == ranges@[i as int]);
                assert(s.drop_first() =~= ranges@.subrange(i + 1, n as int));
            }
            acc.merge(ranges[i]);
            i += 1;
        }
        acc
    }
}

impl ProgressSet {
    /// The ledger that results from merging the ranges given as pairs of
    /// start and end offset, one after another, into an empty ledger.
    pub fn from_pairs(pairs: &Vec<(u64, u64)>) -> (s: Self)
        ensures
            s.wf(),
            s@ == merge_all(Seq::empty(), pairs_entries(pairs@)),
    {
        let n = pairs.len();
        let mut ranges: Vec<ProgressEntry> = Vec::new();
        let mut i: usize = 0;
        while i < n
            invariant
                n == pairs@.len(),
                0 <= i <= n,
                ranges@ == pairs_entries(pairs@).subrange(0, i as int),
            decreases n - i,
        {
            let (start, end) = pairs[i];
            ranges.push(ProgressEntry { start, end });
            assert(ranges@ =~= pairs_entries(pairs@).subrange(0, i + 1));
            i += 1;
        }
        assert(pairs_entries(pairs@).subrange(0, n as int) =~= pairs_entries(pairs@));
        ProgressSet::from_ranges(&ranges)
    }

    /// The ranges as pairs of start and end offset, lowest first.
    pub fn to_pairs(&self) -> (pairs: Vec<(u64, u64)>)
        ensures
            pairs@ == entries_pairs(self@),
    {
        let n = self.entries.len();
        let mut pairs: Vec<(u64, u64)> = Vec::new();
        let mut i: usize = 0;
        while i < n
            invariant
                n == self.entries@.len(),
                0 <= i <= n,
                pairs@ == entries_pairs(self@).subrange(0, i as int),
            decreases n - i,
        {
            let e = self.entries[i];
            pairs.push((e.start, e.end));
            assert(pairs@ =~= entries_pairs(self@).subrange(0, i + 1));
            i += 1;
        }
        assert(entries_pairs(self@).subrange(0, n as int) =~= entries_pairs(self@));
        pairs
    }

    /// The ledger that covers `[0, total)`.
    pub fn full(total: u64) -> (s: Self)
        ensures
            s.wf(),
            s@ == full_ledger(total),
    {
        let mut entries: Vec<ProgressEntry> = Vec::new();
        if total > 0 {
            entries.push(ProgressEntry { start: 0, end: total });
        }
        assert(entries@ =~= full_ledger(total));
        ProgressSet { entries }
    }

    /// Whether the ledger covers `[0, total)` and nothing else.
    pub fn is_full(&self, total: u64) -> (b: bool)
        ensures
            b == (self@ == full_ledger(total)),
    {
        if total == 0 {
            assert(self@.len() == 0 ==> self@ =~= full_ledger(total));
            self.entries.len() == 0
        } else {
            let b = self.entries.len() == 1 && self.entries[0].start == 0 && self.entries[0].end
                == total;
            assert(b ==> self@ =~= full_ledger(total));
            assert(self@ == full_ledger(total) ==> self@[0] == full_ledger(total)[0]);
            b
        }
    }
}

impl Clone for ProgressSet {
    fn clone(&self) -> (c: Self)
        ensures
            c@ == self@,
    {
        let n = self.entries.len();
        let mut out: Vec<ProgressEntry> = Vec::new();
        let mut i: usize = 0;
        while i < n
            invariant
                n == self.entries@.len(),
                0 <= i <= n,
                out@ == self.entries@.subrange(0, i as int),
            decreases n - i,
        {
            out.push(self.entries[i]);
            assert(out@ =~= self.entries@.subrange(0, i + 1));
            i += 1;
        }
        assert(self.entries@.subrange(0, n as int) =~= self.entries@);
        ProgressSet { entries: out }
    }
}

} // verus!
