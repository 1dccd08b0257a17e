//! What a terminal front end keeps of its tasks: the state of each
//! worker, the ranges pulled and written by it, and the recent byte
//! counts from which speeds are shown.

use crate::ledger::ProgressSet;
use crate::progress::{merge_spec, ProgressEntry};
use std::collections::VecDeque;
use vstd::prelude::*;

verus! {

/// The pages of the front end.
#[derive(Debug, Copy, Clone, PartialEq, Eq, Structural)]
pub enum Page {
    Main,
}

/// What has the keyboard.
#[derive(Debug, Copy, Clone, PartialEq, Eq, Structural)]
pub enum AppFocus {
    Page(Page),
    Overlay,
}

impl Default for AppFocus {
    /// At the start the main page has the keyboard.
    fn default() -> (focus: Self)
        ensures
            focus == AppFocus::Page(Page::Main),
    {
        AppFocus::Page(Page::Main)
    }
}

/// A task is known by its number.
pub type TaskId = usize;

/// What a worker is doing.
#[derive(Debug, Copy, Clone, Eq, PartialEq, Structural)]
pub enum FDWorkerState {
    Idle,
    Connecting,
    Downloading,
    Finished,
    Abort,
}

impl FDWorkerState {
    /// The sign under which the state is shown.
    pub open spec fn icon_spec(self) -> Seq<char> {
        match self {
            FDWorkerState::Idle => "🫧"@,
            FDWorkerState::Connecting => "⏳"@,
            FDWorkerState::Downloading => "⚡"@,
            FDWorkerState::Finished => "😎"@,
            FDWorkerState::Abort => "🛑"@,
        }
    }

    /// The sign under which the state is shown.
    pub fn icon(&self) -> (sign: &'static str)
        ensures
            sign@ == self.icon_spec(),
    {
        match self {
            FDWorkerState::Idle => "🫧",
            FDWorkerState::Connecting => "⏳",
            FDWorkerState::Downloading => "⚡",
            FDWorkerState::Finished => "😎",
            FDWorkerState::Abort => "🛑",
        }
    }
}

/// Whether the address of a task has been looked up.
#[derive(Debug, Copy, Clone, Eq, PartialEq, Structural)]
pub enum TaskUrlInfo {
    Pending,
    Failed,
    Ready,
}

/// How far a task has come.
#[derive(Debug, Copy, Clone, Eq, PartialEq, Structural)]
pub enum TaskState {
    Pending,
    Request,
    Download,
    Completed,
    IoError,
}

/// The sign under which a task is shown.
pub open spec fn state_icon_spec(state: TaskState, info: TaskUrlInfo) -> Seq<char> {
    match state {
        TaskState::Pending => match info {
            TaskUrlInfo::Pending => "🔍"@,
            TaskUrlInfo::Failed => "🛑"@,
            TaskUrlInfo::Ready => "🫧"@,
        },
        TaskState::Request => "⏳"@,
        TaskState::Download => "🚚"@,
        TaskState::Completed => "✅"@,
        TaskState::IoError => "💥"@,
    }
}

/// The sign under which a task is shown.
pub fn state_icon(state: TaskState, info: TaskUrlInfo) -> (sign: &'static str)
    ensures
        sign@ == state_icon_spec(state, info),
{
    match state {
        TaskState::Pending => match info {
            TaskUrlInfo::Pending => "🔍",
            TaskUrlInfo::Failed => "🛑",
            TaskUrlInfo::Ready => "🫧",
        },
        TaskState::Request => "⏳",
        TaskState::Download => "🚚",
        TaskState::Completed => "✅",
        TaskState::IoError => "💥",
    }
}

/// Whether the look-up of an address is given up after one more failure,
/// where `failures` failed before and `retry` is how many failures are
/// borne; without a limit it is never given up.
pub fn gives_up(retry: Option<usize>, failures: usize) -> (stop: bool)
    ensures
        stop == (match retry {
            Some(limit) => failures + 1 > limit,
            None => false,
        }),
{
    match retry {
        Some(limit) => failures >= limit,
        None => false,
    }
}

/// How many workers a download gets: as many as asked for where the
/// server serves ranges, else one.
pub fn worker_count(can_fast_download: bool, concurrent: Option<usize>) -> (n: usize)
    ensures
        n == (match concurrent {
            Some(c) => if can_fast_download {
                c
            } else {
                1
            },
            None => 1,
        }),
{
    match concurrent {
        Some(c) => if can_fast_download {
            c
        } else {
            1
        },
        None => 1,
    }
}

/// What is kept of one worker and one direction: the merged ranges, and
/// the recent transfers, each as the time it was seen and its byte count,
/// oldest first.
#[derive(Debug, Clone)]
pub struct Stat {
    pub entries: ProgressSet,
    pub spans: VecDeque<(u64, u64)>,
}

/// What is kept of a download.
#[derive(Debug)]
pub struct Statistics {
    pub state: Vec<FDWorkerState>,
    pub write_stat: Vec<Stat>,
    pub download_stat: Vec<Stat>,
    pub written: u64,
    pub downloaded: u64,
    pub total: u64,
}

/// The transfers that are left when those before `point` are dropped from
/// the front.
pub open spec fn purged(spans: Seq<(u64, u64)>, point: u64) -> Seq<(u64, u64)>
    decreases spans.len(),
{
    if spans.len() > 0 && spans[0].0 < point {
        purged(spans.drop_first(), point)
    } else {
        spans
    }
}

/// The sum of the byte counts.
pub open spec fn span_sum(spans: Seq<(u64, u64)>) -> int
    decreases spans.len(),
{
    if spans.len() == 0 {
        0
    } else {
        span_sum(spans.drop_last()) + spans.last().1
    }
}

impl Stat {
    pub open spec fn wf(&self) -> bool {
        self.entries.wf()
    }

    /// Nothing seen yet.
    pub fn new() -> (s: Self)
        ensures
            s.wf(),
            s.entries@ == Seq::<ProgressEntry>::empty(),
            s.spans@ == Seq::<(u64, u64)>::empty(),
    {
        Stat { entries: ProgressSet::new(), spans: VecDeque::new() }
    }

    /// Takes in a transfer seen at `now`.
    pub fn record(&mut self, entry: ProgressEntry, now: u64)
        requires
            old(self).wf(),
        ensures
            final(self).wf(),
            final(self).entries@ == merge_spec(old(self).entries@, entry),
            final(self).spans@ == old(self).spans@.push((now, entry.span() as u64)),
    {
        self.spans.push_back((now, entry.total()));
        self.entries.merge(entry);
    }

    /// Drops the transfers seen before `point` from the front.
    pub fn purge(&mut self, point: u64)
        ensures
            final(self).entries == old(self).entries,
            final(self).spans@ == purged(old(self).spans@, point),
    {
        while self.spans.len() > 0 && self.spans[0].0 < point
            invariant
                self.entries == old(self).entries,
                purged(self.spans@, point) == purged(old(self).spans@, point),
            decreases self.spans@.len(),
        {
            let ghost before = self.spans@;
            self.spans.pop_front();
            assert(self.spans@ =~= before.drop_first());
        }
    }

    /// How many bytes the kept transfers make.
    pub fn recent_bytes(&self) -> (sum: u64)
        requires
            span_sum(self.spans@) <= u64::MAX,
        ensures
            sum == span_sum(self.spans@),
    {
        let n = self.spans.len();
        let mut sum: u64 = 0;
        let mut i: usize = 0;
        assert(self.spans@.subrange(0, 0) =~= Seq::<(u64, u64)>::empty());
        while i < n
            invariant
                n == self.spans@.len(),
                0 <= i <= n,
                sum == span_sum(self.spans@.subrange(0, i as int)),
                span_sum(self.spans@) <= u64::MAX,
            decreases n - i,
        {
            proof {
                let s = self.spans@.subrange(0, i + 1);
                assert(s.drop_last() =~= self.spans@.subrange(0, i as int));
                assert(s.last() == self.spans@[i as int]);
                lemma_span_sum_prefix(self.spans@, i + 1);
            }
            sum = sum + self.spans[i].1;
            i += 1;
        }
        assert(self.spans@.subrange(0, n as int) =~= self.spans@);
        sum
    }
}

/// The sum over a beginning of the transfers is not above the sum over
/// all.
pub proof fn lemma_span_sum_prefix(spans: Seq<(u64, u64)>, k: int)
    requires
        0 <= k <= spans.len(),
    ensures
        0 <= span_sum(spans.subrange(0, k)) <= span_sum(spans),
    decreases spans.len() - k,
{
    if k < spans.len() {
        lemma_span_sum_prefix(spans, k + 1);
        let t = spans.subrange(0, k + 1);
        assert(t.drop_last() =~= spans.subrange(0, k));
        lemma_span_sum_nonneg(spans.subrange(0, k));
    } else {
        assert(spans.subrange(0, k) =~= spans);
        lemma_span_sum_nonneg(spans);
    }
}

/// A sum of byte counts is not negative.
pub proof fn lemma_span_sum_nonneg(spans: Seq<(u64, u64)>)
    ensures
        0 <= span_sum(spans),
    decreases spans.len(),
{
    if spans.len() > 0 {
        lemma_span_sum_nonneg(spans.drop_last());
    }
}

impl Statistics {
    /// Every worker has its place in each list, and the ranges are in
    /// canonical form.
    pub open spec fn wf(&self) -> bool {
        &&& self.write_stat@.len() == self.state@.len()
        &&& self.download_stat@.len() == self.state@.len()
        &&& forall|i: int| 0 <= i < self.write_stat@.len() ==> (#[trigger] self.write_stat@[i]).wf()
        &&& forall|i: int|
            0 <= i < self.download_stat@.len() ==> (#[trigger] self.download_stat@[i]).wf()
    }

    /// The number of workers.
    pub open spec fn workers(&self) -> int {
        self.state@.len() as int
    }

    /// Statistics for `count` workers and a file of `total` bytes, with
    /// nothing seen yet.
    pub fn new(count: usize, total: u64) -> (s: Self)
        ensures
            s.wf(),
            s.workers() == count,
            s.written == 0,
            s.downloaded == 0,
            s.total == total,
            forall|i: int| 0 <= i < count ==> s.state@[i] == FDWorkerState::Idle,
            forall|i: int|
                0 <= i < count ==> (#[trigger] s.write_stat@[i]).entries@ == Seq::<
                    ProgressEntry,
                >::empty() && s.write_stat@[i].spans@ == Seq::<(u64, u64)>::empty(),
            forall|i: int|
                0 <= i < count ==> (#[trigger] s.download_stat@[i]).entries@ == Seq::<
                    ProgressEntry,
                >::empty() && s.download_stat@[i].spans@ == Seq::<(u64, u64)>::empty(),
    {
        let mut state: Vec<FDWorkerState> = Vec::new();
        let mut write_stat: Vec<Stat> = Vec::new();
        let mut download_stat: Vec<Stat> = Vec::new();
        let mut i: usize = 0;
        while i < count
            invariant
                0 <= i <= count,
                state@.len() == i,
                write_stat@.len() == i,
                download_stat@.len() == i,
                forall|j: int| 0 <= j < i ==> state@[j] == FDWorkerState::Idle,
                forall|j: int|
                    0 <= j < i ==> (#[trigger] write_stat@[j]).wf() && write_stat@[j].entries@
                        == Seq::<ProgressEntry>::empty() && write_stat@[j].spans@ == Seq::<
                        (u64, u64),
                    >::empty(),
                forall|j: int|
                    0 <= j < i ==> (#[trigger] download_stat@[j]).wf() && download_stat@[j].entries@
                        == Seq::<ProgressEntry>::empty() && download_stat@[j].spans@ == Seq::<
                        (u64, u64),
                    >::empty(),
            decreases count - i,
        {
            state.push(FDWorkerState::Idle);
            write_stat.push(Stat::new());
            download_stat.push(Stat::new());
            i += 1;
        }
        Statistics { state, write_stat, download_stat, written: 0, downloaded: 0, total }
    }

    /// The ranges that the worker `id` has written.
    pub fn write_entries(&self, id: usize) -> (entries: &ProgressSet)
        requires
            id < self.write_stat@.len(),
        ensures
            *entries == self.write_stat@[id as int].entries,
    {
        &self.write_stat[id].entries
    }

    /// The ranges that the worker `id` has pulled.
    pub fn download_entries(&self, id: usize) -> (entries: &ProgressSet)
        requires
            id < self.download_stat@.len(),
        ensures
            *entries == self.download_stat@[id as int].entries,
    {
        &self.download_stat[id].entries
    }

    /// The recent writes of the worker `id`.
    pub fn write_spans(&self, id: usize) -> (spans: &VecDeque<(u64, u64)>)
        requires
            id < self.write_stat@.len(),
        ensures
            *spans == self.write_stat@[id as int].spans,
    {
        &self.write_stat[id].spans
    }

    /// The recent pulls of the worker `id`.
    pub fn download_spans(&self, id: usize) -> (spans: &VecDeque<(u64, u64)>)
        requires
            id < self.download_stat@.len(),
        ensures
            *spans == self.download_stat@[id as int].spans,
    {
        &self.download_stat[id].spans
    }

    /// Notes what the worker `id` is doing.
    pub fn worker_state(&mut self, id: usize, state: FDWorkerState)
        requires
            id < old(self).state@.len(),
        ensures
            final(self).state@ == old(self).state@.update(id as int, state),
            final(self).write_stat == old(self).write_stat,
            final(self).download_stat == old(self).download_stat,
            final(self).written == old(self).written,
            final(self).downloaded == old(self).downloaded,
            final(self).total == old(self).total,
    {
        self.state[id] = state;
    }

    /// Takes in a range that the worker `id` has written, seen at `now`.
    pub fn update_write(&mut self, id: usize, entry: ProgressEntry, now: u64)
        requires
            old(self).wf(),
            id < old(self).workers(),
            old(self).written + entry.span() <= u64::MAX,
        ensures
            final(self).wf(),
            final(self).written == old(self).written + entry.span(),
            final(self).write_stat@.len() == old(self).write_stat@.len(),
            final(self).write_stat@[id as int].entries@ == merge_spec(
                old(self).write_stat@[id as int].entries@,
                entry,
            ),
            final(self).write_stat@[id as int].spans@ == old(self).write_stat@[id as int].spans@.push(
                (now, entry.span() as u64),
            ),
            forall|i: int|
                0 <= i < old(self).workers() && i != id ==> final(self).write_stat@[i] == old(
                    self,
                ).write_stat@[i],
            final(self).state == old(self).state,
            final(self).download_stat == old(self).download_stat,
            final(self).downloaded == old(self).downloaded,
            final(self).total == old(self).total,
    {
        self.written = self.written + entry.total();
        let mut stat = Stat::new();
        core::mem::swap(&mut stat, &mut self.write_stat[id]);
        stat.record(entry, now);
        self.write_stat[id] = stat;
    }

    /// Takes in a range that the worker `id` has pulled, seen at `now`.
    pub fn update_download(&mut self, id: usize, entry: ProgressEntry, now: u64)
        requires
            old(self).wf(),
            id < old(self).workers(),
            old(self).downloaded + entry.span() <= u64::MAX,
        ensures
            final(self).wf(),
            final(self).downloaded == old(self).downloaded + entry.span(),
            final(self).download_stat@.len() == old(self).download_stat@.len(),
            final(self).download_stat@[id as int].entries@ == merge_spec(
                old(self).download_stat@[id as int].entries@,
                entry,
            ),
            final(self).download_stat@[id as int].spans@ == old(
                self,
            ).download_stat@[id as int].spans@.push((now, entry.span() as u64)),
            forall|i: int|
                0 <= i < old(self).workers() && i != id ==> final(self).download_stat@[i] == old(
                    self,
                ).download_stat@[i],
            final(self).state == old(self).state,
            final(self).write_stat == old(self).write_stat,
            final(self).written == old(self).written,
            final(self).total == old(self).total,
    {
        self.downloaded = self.downloaded + entry.total();
        let mut stat = Stat::new();
        core::mem::swap(&mut stat, &mut self.download_stat[id]);
        stat.record(entry, now);
        self.download_stat[id] = stat;
    }

    /// Drops the writes of the worker `id` that were seen before `point`.
    pub fn purge_write_spans(&mut self, id: usize, point: u64)
        requires
            old(self).wf(),
            id < old(self).workers(),
        ensures
            final(self).wf(),
            final(self).write_stat@.len() == old(self).write_stat@.len(),
            final(self).write_stat@[id as int].entries == old(self).write_stat@[id as int].entries,
            final(self).write_stat@[id as int].spans@ == purged(
                old(self).write_stat@[id as int].spans@,
                point,
            ),
            forall|i: int|
                0 <= i < old(self).workers() && i != id ==> final(self).write_stat@[i] == old(
                    self,
                ).write_stat@[i],
            final(self).state == old(self).state,
            final(self).download_stat == old(self).download_stat,
            final(self).written == old(self).written,
            final(self).downloaded == old(self).downloaded,
            final(self).total == old(self).total,
    {
        let mut stat = Stat::new();
        core::mem::swap(&mut stat, &mut self.write_stat[id]);
        stat.purge(point);
        self.write_stat[id] = stat;
    }

    /// Drops the pulls of the worker `id` that were seen before `point`.
    pub fn purge_download_spans(&mut self, id: usize, point: u64)
        requires
            old(self).wf(),
            id < old(self).workers(),
        ensures
            final(self).wf(),
            final(self).download_stat@.len() == old(self).download_stat@.len(),
            final(self).download_stat@[id as int].entries == old(
                self,
            ).download_stat@[id as int].entries,
            final(self).download_stat@[id as int].spans@ == purged(
                old(self).download_stat@[id as int].spans@,
                point,
            ),
            forall|i: int|
                0 <= i < old(self).workers() && i != id ==> final(self).download_stat@[i] == old(
                    self,
                ).download_stat@[i],
            final(self).state == old(self).state,
            final(self).write_stat == old(self).write_stat,
            final(self).written == old(self).written,
            final(self).downloaded == old(self).downloaded,
            final(self).total == old(self).total,
    {
        let mut stat = Stat::new();
        core::mem::swap(&mut stat, &mut self.download_stat[id]);
        stat.purge(point);
        self.download_stat[id] = stat;
    }
}

} // verus!

verus! {

/// By how many tasks a page key moves the list.
pub const SCROLL_SIZE: usize = 5;

/// Where the list stands after a page up: five tasks back, at most to
/// the first.
pub fn page_up(scroll: Option<usize>) -> (next: usize)
    ensures
        next == (match scroll {
            Some(s) => if s >= SCROLL_SIZE {
                (s - SCROLL_SIZE) as usize
            } else {
                0
            },
            None => 0,
        }),
{
    match scroll {
        Some(s) => if s >= SCROLL_SIZE {
            s - SCROLL_SIZE
        } else {
            0
        },
        None => 0,
    }
}

/// Where the list stands after a page down: five tasks on, where at least
/// five tasks follow; else behind the last task.
pub fn page_down(scroll: Option<usize>, tasks: usize) -> (next: usize)
    ensures
        ({
            let s = match scroll {
                Some(s) => s,
                None => 0,
            };
            if s > tasks || tasks - s < SCROLL_SIZE {
                next == tasks
            } else if s + SCROLL_SIZE > usize::MAX {
                next == usize::MAX
            } else {
                next == s + SCROLL_SIZE
            }
        }),
{
    let s = match scroll {
        Some(s) => s,
        None => 0,
    };
    if s > tasks || tasks - s < SCROLL_SIZE {
        tasks
    } else if s > usize::MAX - SCROLL_SIZE {
        usize::MAX
    } else {
        s + SCROLL_SIZE
    }
}

/// The numbers go up.
pub open spec fn ascending(ids: Seq<TaskId>) -> bool {
    forall|i: int, j: int| 0 <= i < j < ids.len() ==> ids[i] < ids[j]
}

/// The task above the selected one in the list of tasks `ids`, which go
/// up: the last task where none is selected, else the nearest task with a
/// lower number, if there is one.
pub fn select_up(selected: Option<TaskId>, ids: &Vec<TaskId>) -> (next: Option<TaskId>)
    requires
        ascending(ids@),
    ensures
        match selected {
            None => next == (if ids@.len() > 0 {
                Some(ids@.last())
            } else {
                None
            }),
            Some(id) => match next {
                Some(n) => n < id && ids@.contains(n) && forall|i: int|
                    0 <= i < ids@.len() && ids@[i] < id ==> ids@[i] <= n,
                None => forall|i: int| 0 <= i < ids@.len() ==> ids@[i] >= id,
            },
        },
{
    let n = ids.len();
    match selected {
        None => if n > 0 {
            Some(ids[n - 1])
        } else {
            None
        },
        Some(id) => {
            let mut k: usize = n;
            while k > 0 && ids[k - 1] >= id
                invariant
                    n == ids@.len(),
                    0 <= k <= n,
                    forall|i: int| k <= i < n ==> ids@[i] >= id,
                decreases k,
            {
                k -= 1;
            }
            if k > 0 {
                assert(ids@.contains(ids@[k - 1]));
                Some(ids[k - 1])
            } else {
                None
            }
        },
    }
}

/// The task below the selected one in the list of tasks `ids`, which go
/// up: the first task where none is selected, else the nearest task with
/// a higher number, if there is one.
pub fn select_down(selected: Option<TaskId>, ids: &Vec<TaskId>) -> (next: Option<TaskId>)
    requires
        ascending(ids@),
    ensures
        match selected {
            None => next == (if ids@.len() > 0 {
                Some(ids@[0])
            } else {
                None
            }),
            Some(id) => match next {
                Some(n) => n > id && ids@.contains(n) && forall|i: int|
                    0 <= i < ids@.len() && ids@[i] > id ==> ids@[i] >= n,
                None => forall|i: int| 0 <= i < ids@.len() ==> ids@[i] <= id,
            },
        },
{
    let n = ids.len();
    match selected {
        None => if n > 0 {
            Some(ids[0])
        } else {
            None
        },
        Some(id) => {
            let mut k: usize = 0;
            while k < n && ids[k] <= id
                invariant
                    n == ids@.len(),
                    0 <= k <= n,
                    forall|i: int| 0 <= i < k ==> ids@[i] <= id,
                decreases n - k,
            {
                k += 1;
            }
            if k < n {
                assert(ids@.contains(ids@[k as int]));
                Some(ids[k])
            } else {
                None
            }
        },
    }
}

/// What a round of polling found for a task.
#[derive(Debug, Copy, Clone, Eq, PartialEq, Structural)]
pub enum Polled {
    /// Nothing new.
    Nothing,
    /// The address was looked up.
    Fetched,
    /// Looking up the address failed.
    FetchFailed,
    /// The download was set up.
    Started,
    /// Setting up the download failed.
    StartFailed,
    /// All workers are done.
    Closed,
}

/// What is to be done for a task after a round of polling.
#[derive(Debug, Copy, Clone, Eq, PartialEq, Structural)]
pub enum Followup {
    /// Nothing.
    Nothing,
    /// The download is to be requested.
    RequestDownload,
}

/// A task after a round of polling: its state, the state of its address,
/// how often looking up the address has failed, and what is to be done.
pub open spec fn polled(
    state: TaskState,
    info: TaskUrlInfo,
    auto: bool,
    retry: Option<usize>,
    failures: usize,
    found: Polled,
) -> (TaskState, TaskUrlInfo, int, Followup) {
    match state {
        TaskState::Pending => match info {
            TaskUrlInfo::Pending => match found {
                Polled::Fetched => (state, TaskUrlInfo::Ready, failures as int, Followup::Nothing),
                Polled::FetchFailed => (
                    state,
                    if retry is Some && failures + 1 > retry->Some_0 {
                        TaskUrlInfo::Failed
                    } else {
                        info
                    },
                    failures + 1,
                    Followup::Nothing,
                ),
                _ => (state, info, failures as int, Followup::Nothing),
            },
            TaskUrlInfo::Failed => (state, info, failures as int, Followup::Nothing),
            TaskUrlInfo::Ready => (
                state,
                info,
                failures as int,
                if auto {
                    Followup::RequestDownload
                } else {
                    Followup::Nothing
                },
            ),
        },
        TaskState::Request => match found {
            Polled::Started => (TaskState::Download, info, failures as int, Followup::Nothing),
            Polled::StartFailed => (TaskState::IoError, info, failures as int, Followup::Nothing),
            _ => (state, info, failures as int, Followup::Nothing),
        },
        TaskState::Download => match found {
            Polled::Closed => (TaskState::Completed, info, failures as int, Followup::Nothing),
            _ => (state, info, failures as int, Followup::Nothing),
        },
        _ => (state, info, failures as int, Followup::Nothing),
    }
}

/// Takes a task through a round of polling. While the address is being
/// looked up, a result makes it ready, and a failure is counted and, with
/// a limit that is passed, makes it failed. A ready task that starts by
/// itself asks for its download. A requested download begins or fails. A
/// running download is complete when all its workers are done.
pub fn poll_task(
    state: TaskState,
    info: TaskUrlInfo,
    auto: bool,
    retry: Option<usize>,
    failures: usize,
    found: Polled,
) -> (next: (TaskState, TaskUrlInfo, usize, Followup))
    requires
        failures < usize::MAX,
    ensures
        (next.0, next.1, next.2 as int, next.3) == polled(
            state,
            info,
            auto,
            retry,
            failures,
            found,
        ),
{
    match state {
        TaskState::Pending => match info {
            TaskUrlInfo::Pending => match found {
                Polled::Fetched => (state, TaskUrlInfo::Ready, failures, Followup::Nothing),
                Polled::FetchFailed => {
                    let next_info = if gives_up(retry, failures) {
                        TaskUrlInfo::Failed
                    } else {
                        info
                    };
                    (state, next_info, failures + 1, Followup::Nothing)
                },
                _ => (state, info, failures, Followup::Nothing),
            },
            TaskUrlInfo::Failed => (state, info, failures, Followup::Nothing),
            TaskUrlInfo::Ready => (
                state,
                info,
                failures,
                if auto {
                    Followup::RequestDownload
                } else {
                    Followup::Nothing
                },
            ),
        },
        TaskState::Request => match found {
            Polled::Started => (TaskState::Download, info, failures, Followup::Nothing),
            Polled::StartFailed => (TaskState::IoError, info, failures, Followup::Nothing),
            _ => (state, info, failures, Followup::Nothing),
        },
        TaskState::Download => match found {
            Polled::Closed => (TaskState::Completed, info, failures, Followup::Nothing),
            _ => (state, info, failures, Followup::Nothing),
        },
        _ => (state, info, failures, Followup::Nothing),
    }
}

} // verus!

verus! {

/// The keys that the front end knows.
#[derive(Debug, Copy, Clone, Eq, PartialEq, Structural)]
pub enum Key {
    PageUp,
    PageDown,
    Up,
    Down,
    Char(char),
    Other,
}

/// What the list of tasks shows: where it stands, and which task is
/// selected.
#[derive(Debug, Copy, Clone, Eq, PartialEq, Structural)]
pub struct ListView {
    pub scroll: Option<usize>,
    pub selected: Option<TaskId>,
}

/// What a key asks for beyond the list.
#[derive(Debug, Copy, Clone, Eq, PartialEq, Structural)]
pub enum KeyAction {
    /// Nothing.
    Nothing,
    /// Leave the program.
    Exit,
    /// Make a task of the address on the clipboard.
    Paste,
}

/// What a key asks for beyond the list: `q` leaves, `p` pastes.
pub open spec fn key_action(key: Key) -> KeyAction {
    match key {
        Key::Char(c) => if c == 'q' {
            KeyAction::Exit
        } else if c == 'p' {
            KeyAction::Paste
        } else {
            KeyAction::Nothing
        },
        _ => KeyAction::Nothing,
    }
}

/// Takes a key. The page keys move the list by five tasks, the arrow keys
/// move the selection to the neighbouring task in the list `ids`, which
/// goes up; `q` asks to leave, `p` to paste; any other key does nothing.
pub fn handle_key_event(view: ListView, key: Key, ids: &Vec<TaskId>) -> (next: (
    ListView,
    KeyAction,
))
    requires
        ascending(ids@),
    ensures
        next.1 == key_action(key),
        key is PageUp || key is PageDown ==> next.0.selected == view.selected && next.0.scroll
            is Some,
        key is Up || key is Down ==> next.0.scroll == view.scroll,
        key is Char || key is Other ==> next.0 == view,
        key is PageUp ==> next.0.scroll->Some_0 == (match view.scroll {
            Some(s) => if s >= SCROLL_SIZE {
                (s - SCROLL_SIZE) as usize
            } else {
                0
            },
            None => 0,
        }),
        key is PageDown ==> ({
            let s = match view.scroll {
                Some(s) => s,
                None => 0,
            };
            if s > ids@.len() || ids@.len() - s < SCROLL_SIZE {
                next.0.scroll->Some_0 == ids@.len()
            } else if s + SCROLL_SIZE > usize::MAX {
                next.0.scroll->Some_0 == usize::MAX
            } else {
                next.0.scroll->Some_0 == s + SCROLL_SIZE
            }
        }),
        key is Up ==> match view.selected {
            None => next.0.selected == (if ids@.len() > 0 {
                Some(ids@.last())
            } else {
                None
            }),
            Some(id) => match next.0.selected {
                Some(n) => n < id && ids@.contains(n) && forall|i: int|
                    0 <= i < ids@.len() && ids@[i] < id ==> ids@[i] <= n,
                None => forall|i: int| 0 <= i < ids@.len() ==> ids@[i] >= id,
            },
        },
        key is Down ==> match view.selected {
            None => next.0.selected == (if ids@.len() > 0 {
                Some(ids@[0])
            } else {
                None
            }),
            Some(id) => match next.0.selected {
                Some(n) => n > id && ids@.contains(n) && forall|i: int|
                    0 <= i < ids@.len() && ids@[i] > id ==> ids@[i] >= n,
                None => forall|i: int| 0 <= i < ids@.len() ==> ids@[i] <= id,
            },
        },
{
    match key {
        Key::PageUp => (
            ListView { scroll: Some(page_up(view.scroll)), ..view },
            KeyAction::Nothing,
        ),
        Key::PageDown => (
            ListView { scroll: Some(page_down(view.scroll, ids.len())), ..view },
            KeyAction::Nothing,
        ),
        Key::Up => (
            ListView { selected: select_up(view.selected, ids), ..view },
            KeyAction::Nothing,
        ),
        Key::Down => (
            ListView { selected: select_down(view.selected, ids), ..view },
            KeyAction::Nothing,
        ),
        Key::Char(c) => {
            if c == 'q' {
                (view, KeyAction::Exit)
            } else if c == 'p' {
                (view, KeyAction::Paste)
            } else {
                (view, KeyAction::Nothing)
            }
        },
        Key::Other => (view, KeyAction::Nothing),
    }
}

/// The space around the bar of a worker, in cells.
pub const PADDING: u16 = 1;

/// How many cells the bar of a worker gets in a row of `width` cells, of
/// which the labels take `labels_width`: beside the labels what they and
/// the space around the bar leave, or the whole row where the labels do not
/// fit; on a line of its own the row less the space around the bar.
pub fn bar_width(width: u16, labels_width: u16, shrink: bool) -> (cells: u16)
    ensures
        cells == (if shrink {
            if width < labels_width {
                width as int
            } else if width - labels_width >= 2 * PADDING {
                width - labels_width - 2 * PADDING
            } else {
                0
            }
        } else if width >= 2 * PADDING {
            width - 2 * PADDING
        } else {
            0
        }),
{
    if shrink {
        if width < labels_width {
            width
        } else if width - labels_width >= 2 * PADDING {
            width - labels_width - 2 * PADDING
        } else {
            0
        }
    } else if width >= 2 * PADDING {
        width - 2 * PADDING
    } else {
        0
    }
}

} // verus!
