//! The work dispatcher: it cuts the ranges that are left into chunks and
//! hands them out to the workers, one at a time, until it is cancelled.

use crate::event::WorkerId;
use crate::ledger::ProgressSet;
use crate::progress::{covers, is_ledger, lemma_covers_concat, ProgressEntry};
use vstd::prelude::*;

verus! {

/// A unit of work in the hands of a worker.
#[derive(Clone, Copy, Debug, PartialEq, Eq, Structural)]
pub struct WorkChunk {
    pub worker_id: WorkerId,
    pub range: ProgressEntry,
}

/// Into how many pieces a range of `len` bytes is cut, for a file of
/// `size` bytes and `concurrent` workers: a range that is longer than an
/// even share of the file is cut into as many pieces as there are workers,
/// but into fewer where the pieces would fall below `min_chunk_size`; any
/// other range stays whole.
pub open spec fn pieces_for(len: int, size: int, concurrent: int, min_chunk_size: int) -> int {
    if concurrent >= 2 && len > size / concurrent {
        let floor = if min_chunk_size >= 1 {
            min_chunk_size
        } else {
            1
        };
        let most = len / floor;
        if most >= concurrent {
            concurrent
        } else if most >= 1 {
            most
        } else {
            1
        }
    } else {
        1
    }
}

/// The first `k` of the `pieces` pieces of `r`: equal pieces of the length
/// of `r` divided by `pieces`, of which the last takes the remainder too.
pub open spec fn cut(r: ProgressEntry, pieces: int, k: int) -> Seq<ProgressEntry>
    decreases k,
{
    if k <= 0 {
        Seq::empty()
    } else {
        let q = (r.end - r.start) / pieces;
        cut(r, pieces, k - 1).push(
            ProgressEntry {
                start: (r.start + (k - 1) * q) as u64,
                end: if k == pieces {
                    r.end
                } else {
                    (r.start + k * q) as u64
                },
            },
        )
    }
}

/// The chunks for the first `k` ranges of `v`, in order.
pub open spec fn chunks_of(
    v: Seq<ProgressEntry>,
    k: int,
    size: u64,
    concurrent: usize,
    min_chunk_size: u64,
) -> Seq<ProgressEntry>
    decreases k,
{
    if k <= 0 {
        Seq::empty()
    } else {
        let r = v[k - 1];
        let pieces = pieces_for(
            r.end - r.start,
            size as int,
            concurrent as int,
            min_chunk_size as int,
        );
        chunks_of(v, k - 1, size, concurrent, min_chunk_size) + cut(r, pieces, pieces)
    }
}

/// Each chunk is non-empty, and each ends where the next begins or before.
pub open spec fn in_order(chunks: Seq<ProgressEntry>) -> bool {
    &&& forall|i: int| 0 <= i < chunks.len() ==> (#[trigger] chunks[i]).start < chunks[i].end
    &&& forall|i: int, j: int|
        0 <= i < j < chunks.len() ==> (#[trigger] chunks[i]).end <= (#[trigger] chunks[j]).start
}

/// A piece is not shorter than the floor of the division.
pub proof fn lemma_piece_bounds(len: int, pieces: int, k: int)
    requires
        len >= 1,
        1 <= pieces <= len,
        0 <= k <= pieces,
    ensures
        (len / pieces) >= 1,
        0 <= k * (len / pieces) <= len,
        k < pieces ==> (k + 1) * (len / pieces) <= len,
        k * (len / pieces) + (len / pieces) == (k + 1) * (len / pieces),
{
    let q = len / pieces;
    assert(q >= 1 && pieces * q <= len) by (nonlinear_arith)
        requires
            len >= 1,
            1 <= pieces <= len,
            q == len / pieces,
    ;
    assert(0 <= k * q <= pieces * q) by (nonlinear_arith)
        requires
            0 <= k <= pieces,
            q >= 1,
    ;
    if k < pieces {
        assert((k + 1) * q <= pieces * q) by (nonlinear_arith)
            requires
                0 <= k + 1 <= pieces,
                q >= 1,
        ;
    }
    assert(k * q + q == (k + 1) * q) by (nonlinear_arith);
}

/// The first `k` pieces of a range lie one behind the other from the
/// start of the range on, and cover it up to where the `k`-th piece ends.
pub proof fn lemma_cut(r: ProgressEntry, pieces: int, k: int)
    requires
        r.start < r.end,
        1 <= pieces <= r.end - r.start,
        0 <= k <= pieces,
    ensures
        cut(r, pieces, k).len() == k,
        in_order(cut(r, pieces, k)),
        forall|i: int|
            0 <= i < k ==> r.start <= (#[trigger] cut(r, pieces, k)[i]).start && cut(
                r,
                pieces,
                k,
            )[i].end <= r.end,
        k > 0 ==> cut(r, pieces, k)[0].start == r.start,
        k > 0 ==> cut(r, pieces, k).last().end == (if k == pieces {
            r.end as int
        } else {
            r.start + k * ((r.end - r.start) / pieces)
        }),
        forall|x: int|
            covers(cut(r, pieces, k), x) <==> (k > 0 && r.start <= x < (if k == pieces {
                r.end as int
            } else {
                r.start + k * ((r.end - r.start) / pieces)
            })),
    decreases k,
{
    let len = r.end - r.start;
    let q = len / pieces;
    let c = cut(r, pieces, k);
    if k > 0 {
        let b = cut(r, pieces, k - 1);
        lemma_cut(r, pieces, k - 1);
        lemma_piece_bounds(len, pieces, k - 1);
        lemma_piece_bounds(len, pieces, k);
        let last = c.last();
        assert(c == b.push(last));
        assert(last.start == r.start + (k - 1) * q);
        if k == 1 {
            assert((k - 1) * q == 0) by (nonlinear_arith)
                requires
                    k == 1,
            ;
        }
        assert(last.end == (if k == pieces {
            r.end as int
        } else {
            r.start + k * q
        }));
        assert forall|i: int| 0 <= i < c.len() implies (#[trigger] c[i]).start < c[i].end by {
            if i < k - 1 {
                assert(c[i] == b[i]);
            }
        }
        assert forall|i: int, j: int| 0 <= i < j < c.len() implies (#[trigger] c[i]).end <= (
        #[trigger] c[j]).start by {
            if j < k - 1 {
                assert(c[i] == b[i]);
                assert(c[j] == b[j]);
            } else {
                assert(c[i] == b[i]);
                if i < k - 2 {
                    assert(b[i].end <= b[k - 2].start);
                }
                assert(b.last() == b[k - 2]);
            }
        }
        assert forall|i: int| 0 <= i < k implies r.start <= (#[trigger] c[i]).start && c[i].end
            <= r.end by {
            if i < k - 1 {
                assert(c[i] == b[i]);
            }
        }
        if k > 1 {
            assert(c[0] == b[0]);
        }
        assert forall|x: int|
            covers(c, x) <==> (r.start <= x < (if k == pieces {
                r.end as int
            } else {
                r.start + k * q
            })) by {
            assert(c =~= b + seq![last]);
            lemma_covers_concat(b, seq![last], x);
            assert(covers(b, x) <==> (k - 1 > 0 && r.start <= x < r.start + (k - 1) * q));
            if covers(seq![last], x) {
                let i = choose|i: int|
                    0 <= i < seq![last].len() && (#[trigger] seq![last][i]).contains(x);
                assert(seq![last][i] == last);
            }
            if last.contains(x) {
                assert(seq![last][0].contains(x));
            }
        }
    } else {
        assert forall|x: int| !covers(c, x) by {}
    }
}

/// The chunks of a ledger lie in order and cover what the ledger covers.
pub proof fn lemma_chunks_of(
    v: Seq<ProgressEntry>,
    k: int,
    size: u64,
    concurrent: usize,
    min_chunk_size: u64,
)
    requires
        is_ledger(v),
        0 <= k <= v.len(),
    ensures
        in_order(chunks_of(v, k, size, concurrent, min_chunk_size)),
        forall|x: int|
            covers(chunks_of(v, k, size, concurrent, min_chunk_size), x) <==> covers(
                v.subrange(0, k),
                x,
            ),
        forall|i: int|
            0 <= i < chunks_of(v, k, size, concurrent, min_chunk_size).len() && k > 0 ==> (
            #[trigger] chunks_of(v, k, size, concurrent, min_chunk_size)[i]).end <= v[k - 1].end,
    decreases k,
{
    let c = chunks_of(v, k, size, concurrent, min_chunk_size);
    if k > 0 {
        let r = v[k - 1];
        let pieces = pieces_for(
            r.end - r.start,
            size as int,
            concurrent as int,
            min_chunk_size as int,
        );
        lemma_pieces_for(r.end - r.start, size as int, concurrent as int, min_chunk_size as int);
        let b = chunks_of(v, k - 1, size, concurrent, min_chunk_size);
        let t = cut(r, pieces, pieces);
        lemma_chunks_of(v, k - 1, size, concurrent, min_chunk_size);
        lemma_cut(r, pieces, pieces);
        assert(c == b + t);
        if k > 1 {
            assert(v[k - 2].end < v[k - 1].start);
        }
        assert forall|i: int| 0 <= i < c.len() implies (#[trigger] c[i]).start < c[i].end by {
            if i >= b.len() {
                assert(c[i] == t[i - b.len()]);
            } else {
                assert(c[i] == b[i]);
            }
        }
        assert forall|i: int, j: int| 0 <= i < j < c.len() implies (#[trigger] c[i]).end <= (
        #[trigger] c[j]).start by {
            if j < b.len() {
                assert(c[i] == b[i]);
                assert(c[j] == b[j]);
            } else if i >= b.len() {
                assert(c[i] == t[i - b.len()]);
                assert(c[j] == t[j - b.len()]);
            } else {
                assert(c[i] == b[i]);
                assert(c[j] == t[j - b.len()]);
                assert(b[i].end <= v[k - 2].end);
            }
        }
        assert forall|i: int| 0 <= i < c.len() implies (#[trigger] c[i]).end <= v[k - 1].end by {
            if i >= b.len() {
                assert(c[i] == t[i - b.len()]);
            } else {
                assert(c[i] == b[i]);
                assert(b[i].end <= v[k - 2].end);
            }
        }
        assert forall|x: int| covers(c, x) <==> covers(v.subrange(0, k), x) by {
            lemma_covers_concat(b, t, x);
            let s = v.subrange(0, k);
            assert(s.drop_last() =~= v.subrange(0, k - 1));
            assert(s.last() == r);
            crate::progress::lemma_covers_last(s, x);
        }
    } else {
        assert forall|x: int| !covers(v.subrange(0, 0), x) by {}
        assert forall|x: int| !covers(c, x) by {}
    }
}

/// A range is cut into at least one piece, and into no more pieces than
/// it has bytes or there are workers.
pub proof fn lemma_pieces_for(len: int, size: int, concurrent: int, min_chunk_size: int)
    requires
        len >= 1,
    ensures
        1 <= pieces_for(len, size, concurrent, min_chunk_size) <= len,
        pieces_for(len, size, concurrent, min_chunk_size) <= (if concurrent >= 1 {
            concurrent
        } else {
            1
        }),
        pieces_for(len, size, concurrent, min_chunk_size) > 1 ==> len / pieces_for(
            len,
            size,
            concurrent,
            min_chunk_size,
        ) >= min_chunk_size,
{
    let p = pieces_for(len, size, concurrent, min_chunk_size);
    if concurrent >= 2 && len > size / concurrent {
        let floor = if min_chunk_size >= 1 {
            min_chunk_size
        } else {
            1
        };
        let most = len / floor;
        assert(most <= len && most * floor <= len) by (nonlinear_arith)
            requires
                floor >= 1,
                len >= 1,
                most == len / floor,
        ;
        if p > 1 {
            assert(len / p >= floor) by (nonlinear_arith)
                requires
                    1 < p <= most,
                    most * floor <= len,
                    floor >= 1,
            ;
        }
    }
}

/// The chunks into which the ranges that are left are cut, in order.
pub fn partition(remaining: &ProgressSet, size: u64, concurrent: usize, min_chunk_size: u64) -> (
    chunks: Vec<ProgressEntry>)
    requires
        remaining.wf(),
    ensures
        chunks@ == chunks_of(
            remaining@,
            remaining@.len() as int,
            size,
            concurrent,
            min_chunk_size,
        ),
        in_order(chunks@),
        forall|x: int| covers(chunks@, x) <==> covers(remaining@, x),
{
    let ghost v = remaining@;
    let n = remaining.len();
    let mut chunks: Vec<ProgressEntry> = Vec::new();
    let mut i: usize = 0;
    while i < n
        invariant
            n == v.len(),
            v == remaining@,
            is_ledger(v),
            0 <= i <= n,
            chunks@ == chunks_of(v, i as int, size, concurrent, min_chunk_size),
        decreases n - i,
    {
        let r = remaining.get(i).unwrap();
        let len = r.end - r.start;
        let pieces = pieces(len, size, concurrent, min_chunk_size);
        proof {
            lemma_pieces_for(len as int, size as int, concurrent as int, min_chunk_size as int);
        }
        let q = len / pieces;
        let ghost before = chunks@;
        let mut k: u64 = 0;
        assert(chunks@ =~= before + cut(r, pieces as int, 0));
        while k < pieces
            invariant
                0 <= k <= pieces,
                1 <= pieces <= len,
                len == r.end - r.start,
                r.start < r.end,
                q == len / pieces,
                chunks@ == before + cut(r, pieces as int, k as int),
            decreases pieces - k,
        {
            proof {
                lemma_piece_bounds(len as int, pieces as int, k as int);
                lemma_piece_bounds(len as int, pieces as int, k + 1);
            }
            let start = r.start + k * q;
            let end = if k + 1 == pieces {
                r.end
            } else {
                start + q
            };
            chunks.push(ProgressEntry { start, end });
            assert(chunks@ =~= before + cut(r, pieces as int, k + 1));
            k += 1;
        }
        i += 1;
    }
    proof {
        lemma_chunks_of(v, n as int, size, concurrent, min_chunk_size);
        assert(v.subrange(0, n as int) =~= v);
    }
    chunks
}

/// Into how many pieces a range of `len` bytes is cut.
pub fn pieces(len: u64, size: u64, concurrent: usize, min_chunk_size: u64) -> (p: u64)
    ensures
        p == pieces_for(len as int, size as int, concurrent as int, min_chunk_size as int),
{
    if concurrent >= 2 && len > size / (concurrent as u64) {
        let floor = if min_chunk_size >= 1 {
            min_chunk_size
        } else {
            1
        };
        let most = len / floor;
        if most >= concurrent as u64 {
            concurrent as u64
        } else if most >= 1 {
            most
        } else {
            1
        }
    } else {
        1
    }
}

/// The queue of chunks and the cancel flag.
#[derive(Debug)]
pub struct Dispatcher {
    chunks: Vec<ProgressEntry>,
    next: usize,
    concurrent: usize,
    cancelled: bool,
}

impl Dispatcher {
    /// The chunks that have not been handed out.
    pub closed spec fn pending(&self) -> Seq<ProgressEntry> {
        if self.next <= self.chunks@.len() {
            self.chunks@.subrange(self.next as int, self.chunks@.len() as int)
        } else {
            Seq::empty()
        }
    }

    /// Whether the run is cancelled.
    pub closed spec fn is_cancelled(&self) -> bool {
        self.cancelled
    }

    /// The number of workers.
    pub closed spec fn workers(&self) -> usize {
        self.concurrent
    }

    pub closed spec fn wf(&self) -> bool {
        self.next <= self.chunks@.len() && self.concurrent >= 1
    }

    /// A dispatcher for the ranges that are left of a file of `size`
    /// bytes, for `concurrent` workers (at least one).
    pub fn new(remaining: &ProgressSet, size: u64, concurrent: usize, min_chunk_size: u64) -> (d:
        Self)
        requires
            remaining.wf(),
        ensures
            d.wf(),
            !d.is_cancelled(),
            d.workers() == (if concurrent >= 1 {
                concurrent
            } else {
                1
            }),
            d.pending() == chunks_of(
                remaining@,
                remaining@.len() as int,
                size,
                d.workers(),
                min_chunk_size,
            ),
    {
        let concurrent = if concurrent >= 1 {
            concurrent
        } else {
            1
        };
        let chunks = partition(remaining, size, concurrent, min_chunk_size);
        assert(chunks@.subrange(0, chunks@.len() as int) =~= chunks@);
        Dispatcher { chunks, next: 0, concurrent, cancelled: false }
    }

    /// Cancels the run: from now on no chunk is handed out.
    pub fn cancel(&mut self)
        requires
            old(self).wf(),
        ensures
            final(self).wf(),
            final(self).is_cancelled(),
            final(self).pending() == old(self).pending(),
            final(self).workers() == old(self).workers(),
    {
        self.cancelled = true;
    }

    /// The next chunk for the worker `worker_id`: the first that has not
    /// been handed out. Nothing if none is left, if the run is cancelled,
    /// or if there is no worker of that number.
    pub fn next_chunk(&mut self, worker_id: WorkerId) -> (chunk: Option<WorkChunk>)
        requires
            old(self).wf(),
        ensures
            final(self).wf(),
            final(self).is_cancelled() == old(self).is_cancelled(),
            final(self).workers() == old(self).workers(),
            ({
                let hands_out = !old(self).is_cancelled() && worker_id < old(self).workers()
                    && old(self).pending().len() > 0;
                if hands_out {
                    chunk == Some(WorkChunk { worker_id, range: old(self).pending()[0] })
                        && final(self).pending() == old(self).pending().drop_first()
                } else {
                    chunk is None && final(self).pending() == old(self).pending()
                }
            }),
    {
        if self.cancelled || worker_id >= self.concurrent || self.next >= self.chunks.len() {
            return None;
        }
        let range = self.chunks[self.next];
        self.next = self.next + 1;
        assert(self.pending() =~= old(self).pending().drop_first());
        Some(WorkChunk { worker_id, range })
    }
}

} // verus!
