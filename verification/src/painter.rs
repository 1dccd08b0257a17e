//! What the progress bar shows, in whole bytes: the ranges pulled so far,
//! the byte counts between two repaints, and how much of each cell of the
//! bar is filled.

use crate::ledger::ProgressSet;
use crate::ledger_laws::lemma_covered_count;
use crate::progress::{
    covered_set, covers, is_ledger, lemma_merge_spec, merge_spec, total_len, ProgressEntry,
};
use vstd::prelude::*;
use vstd::set_lib::lemma_len_subset;

verus! {

/// How many bytes of `e` lie in `[start, end)`.
pub open spec fn overlap(e: ProgressEntry, start: u64, end: u64) -> int {
    let lo = if e.start >= start {
        e.start
    } else {
        start
    };
    let hi = if e.end <= end {
        e.end
    } else {
        end
    };
    if lo < hi {
        hi - lo
    } else {
        0
    }
}

/// How many bytes of the ranges `v` lie in `[start, end)`.
pub open spec fn overlap_sum(v: Seq<ProgressEntry>, start: u64, end: u64) -> int
    decreases v.len(),
{
    if v.len() == 0 {
        0
    } else {
        overlap_sum(v.drop_last(), start, end) + overlap(v.last(), start, end)
    }
}

/// The place of the first range from `from` on that ends after `start`,
/// or the number of ranges if there is none.
pub open spec fn skip_before(v: Seq<ProgressEntry>, from: int, start: u64) -> int
    decreases v.len() - from,
{
    if from >= v.len() || from < 0 {
        v.len() as int
    } else if v[from].end <= start {
        skip_before(v, from + 1, start)
    } else {
        from
    }
}

/// Where the ranges from `from` to `j` all end at or before `start`, and
/// the one at `j` does not, the first range that ends after `start` is the
/// one at `j`.
pub proof fn lemma_skip_before(v: Seq<ProgressEntry>, from: int, j: int, start: u64)
    requires
        0 <= from <= j <= v.len(),
        forall|i: int| from <= i < j ==> (#[trigger] v[i]).end <= start,
        j < v.len() ==> v[j].end > start,
    ensures
        skip_before(v, from, start) == j,
    decreases j - from,
{
    if from < j {
        lemma_skip_before(v, from + 1, j, start);
    }
}

/// Ranges without bytes in the window add nothing.
pub proof fn lemma_overlap_tail(v: Seq<ProgressEntry>, from: int, j: int, start: u64, end: u64)
    requires
        0 <= from <= j <= v.len(),
        forall|i: int| j <= i < v.len() ==> overlap(#[trigger] v[i], start, end) == 0,
    ensures
        overlap_sum(v.subrange(from, v.len() as int), start, end) == overlap_sum(
            v.subrange(from, j),
            start,
            end,
        ),
    decreases v.len() - j,
{
    if j < v.len() {
        let w = v.drop_last();
        assert forall|i: int| j <= i < w.len() implies overlap(#[trigger] w[i], start, end)
            == 0 by {
            assert(w[i] == v[i]);
        }
        lemma_overlap_tail(w, from, j, start, end);
        let s = v.subrange(from, v.len() as int);
        assert(s.drop_last() =~= w.subrange(from, w.len() as int));
        assert(s.last() == v[v.len() - 1]);
        assert(w.subrange(from, j) =~= v.subrange(from, j));
    } else {
        assert(v.subrange(from, v.len() as int) =~= v.subrange(from, j));
    }
}

/// How many bytes of the ranges of `entries` from the place `*idx` on lie
/// in the window `[start, end)`. `*idx` moves on past the ranges that end
/// at or before the window's start, which no later window needs.
pub fn calculate_value(entries: &ProgressSet, idx: &mut usize, start: u64, end: u64) -> (total:
    u64)
    requires
        entries.wf(),
        *old(idx) <= entries@.len(),
    ensures
        total == overlap_sum(
            entries@.subrange(*old(idx) as int, entries@.len() as int),
            start,
            end,
        ),
        *final(idx) == skip_before(entries@, *old(idx) as int, start),
        *old(idx) <= *final(idx) <= entries@.len(),
{
    let ghost v = entries@;
    let ghost from = *idx as int;
    let n = entries.len();
    let mut block_total: u64 = 0;
    let mut j: usize = *idx;
    let mut stopped = false;
    assert(v.subrange(from, from) =~= Seq::<ProgressEntry>::empty());
    while j < n && !stopped
        invariant
            n == v.len(),
            v == entries@,
            is_ledger(v),
            from == *old(idx),
            0 <= from <= j <= n,
            from <= *idx <= j,
            block_total == overlap_sum(v.subrange(from, j as int), start, end),
            block_total == 0 || (j > from && block_total + start <= v[j - 1].end && block_total
                + start <= end),
            forall|i: int| from <= i < *idx ==> (#[trigger] v[i]).end <= start,
            *idx < j ==> v[*idx as int].end > start,
            stopped ==> v[j as int].start >= end && v[j as int].end > start,
        decreases n - j + (if stopped { 0int } else { 1int }),
    {
        let segment = entries.get(j).unwrap();
        proof {
            let s = v.subrange(from, j + 1);
            assert(s.drop_last() =~= v.subrange(from, j as int));
            assert(s.last() == v[j as int]);
            if j > from {
                assert(v[j - 1].end < v[j as int].start);
            }
        }
        if segment.end <= start {
            assert(*idx == j) by {
                if *idx < j - 1 {
                    assert(v[*idx as int].end < v[j as int].start);
                }
            }
            *idx = *idx + 1;
            j += 1;
        } else if segment.start >= end {
            stopped = true;
        } else {
            let overlap_start = if segment.start >= start {
                segment.start
            } else {
                start
            };
            let overlap_end = if segment.end <= end {
                segment.end
            } else {
                end
            };
            if overlap_start < overlap_end {
                block_total = block_total + (overlap_end - overlap_start);
            }
            j += 1;
        }
    }
    proof {
        if j < n {
            assert forall|i: int| j <= i < v.len() implies overlap(#[trigger] v[i], start, end)
                == 0 by {
                if i > j {
                    assert(v[j as int].end < v[i].start);
                }
            }
        }
        lemma_overlap_tail(v, from, j as int, start, end);
        if *idx < j {
            lemma_skip_before(v, from, *idx as int, start);
        } else {
            lemma_skip_before(v, from, j as int, start);
        }
    }
    block_total
}

/// Merging a range into a ledger does not lower its total.
pub proof fn lemma_merge_grows(v: Seq<ProgressEntry>, r: ProgressEntry)
    requires
        is_ledger(v),
    ensures
        total_len(v) <= total_len(merge_spec(v, r)),
{
    let w = merge_spec(v, r);
    lemma_merge_spec(v, r);
    lemma_covered_count(v);
    lemma_covered_count(w);
    assert forall|x: int| covered_set(v).contains(x) implies covered_set(w).contains(x) by {
        assert(covers(v, x));
    }
    lemma_len_subset(covered_set(v), covered_set(w));
}

/// The state of the progress bar.
#[derive(Debug)]
pub struct Painter {
    /// The ranges pulled so far.
    pub progress: ProgressSet,
    /// The width of the bar in cells; zero turns the bar off.
    pub width: u16,
    /// The size of the file; zero if it is unknown.
    pub file_size: u64,
    /// How many bytes were pulled at the last repaint.
    pub prev_size: u64,
    /// How many bytes are pulled now.
    pub curr_size: u64,
}

impl Painter {
    pub open spec fn wf(&self) -> bool {
        &&& self.progress.wf()
        &&& self.curr_size == total_len(self.progress@)
        &&& self.prev_size <= self.curr_size
    }

    /// A bar that starts from `init_progress`.
    pub fn new(init_progress: ProgressSet, file_size: u64, progress_width: u16) -> (p: Self)
        requires
            init_progress.wf(),
        ensures
            p.wf(),
            p.progress == init_progress,
            p.file_size == file_size,
            p.width == progress_width,
            p.prev_size == p.curr_size,
    {
        let init_size = init_progress.total();
        Painter {
            progress: init_progress,
            width: progress_width,
            file_size,
            prev_size: init_size,
            curr_size: init_size,
        }
    }

    /// Forgets what was pulled: the download has begun again at the first
    /// byte.
    pub fn reset_progress(&mut self)
        ensures
            final(self).wf(),
            final(self).progress@ == Seq::<ProgressEntry>::empty(),
            final(self).prev_size == 0,
            final(self).curr_size == 0,
            final(self).width == old(self).width,
            final(self).file_size == old(self).file_size,
    {
        self.progress = ProgressSet::new();
        self.prev_size = 0;
        self.curr_size = 0;
    }

    /// Takes in a pulled range. A bar of width zero takes nothing in.
    pub fn add(&mut self, p: ProgressEntry)
        requires
            old(self).wf(),
        ensures
            final(self).wf(),
            final(self).width == old(self).width,
            final(self).file_size == old(self).file_size,
            final(self).prev_size == old(self).prev_size,
            final(self).progress@ == (if old(self).width == 0 {
                old(self).progress@
            } else {
                merge_spec(old(self).progress@, p)
            }),
    {
        if self.width == 0 {
            return ;
        }
        proof {
            lemma_merge_grows(self.progress@, p);
        }
        self.progress.merge(p);
        self.curr_size = self.progress.total();
    }

    /// How many bytes were pulled since the last repaint; the count starts
    /// anew.
    pub fn take_delta(&mut self) -> (delta: u64)
        requires
            old(self).wf(),
        ensures
            final(self).wf(),
            delta == old(self).curr_size - old(self).prev_size,
            final(self).prev_size == old(self).curr_size,
            final(self).curr_size == old(self).curr_size,
            final(self).progress == old(self).progress,
            final(self).width == old(self).width,
            final(self).file_size == old(self).file_size,
    {
        let delta = self.curr_size - self.prev_size;
        self.prev_size = self.curr_size;
        delta
    }

    /// Whether there is nothing more to show: the size is known and all of
    /// it is pulled.
    pub fn is_done(&self) -> (done: bool)
        ensures
            done == (self.file_size > 0 && self.curr_size >= self.file_size),
    {
        self.file_size > 0 && self.curr_size >= self.file_size
    }
}

} // verus!
