//! The decisions of one download: which headers to send, whether to resume
//! and what to ask before, which work is left, and what to do on each event
//! from the workers.

use crate::downloading::Downloading;
use crate::ledger::ProgressSet;
use crate::progress::{full_ledger, invert_spec, merge_all, pairs_entries, total_len, ProgressEntry};
use crate::text::{opt_str_eq, opt_text, to_chars};
use vstd::prelude::*;

verus! {

/// The user agent that is sent when a browser is imitated.
pub const BROWSER_USER_AGENT: &'static str =
    "Mozilla/5.0 (Windows NT 10.0; Win64; x64) AppleWebKit/537.36 (KHTML, like Gecko) Chrome/144.0.0.0 Safari/537.36 Edg/144.0.0.0";

/// What identifies the remote file between runs. The strings are compared
/// and never interpreted.
#[derive(Debug, Clone, PartialEq, Eq)]
pub struct FileId {
    pub etag: Option<String>,
    pub last_modified: Option<String>,
}

/// What probing the URL has found.
#[derive(Debug, Clone, PartialEq, Eq)]
pub struct UrlInfo {
    pub final_url: String,
    pub size: u64,
    pub raw_name: String,
    pub file_id: FileId,
    pub fast_download: bool,
}

/// A question that has to be answered with yes before a stored partial
/// download is taken up again.
#[derive(Clone, Copy, Debug, PartialEq, Eq, Structural)]
pub enum ResumeCheck {
    /// The stored size differs from the size the server reports now.
    SizeMismatch,
    /// The stored entity tag differs from the one the server sends now.
    EtagMismatch,
    /// The entity tags agree, but they are weak ones.
    WeakEtag,
    /// Neither the record nor the server has an entity tag.
    NoEtag,
    /// The stored last-modified stamp differs from the one sent now.
    LastModifiedMismatch,
}

/// An entity tag is weak if it begins with `W/`.
pub open spec fn is_weak(etag: Seq<char>) -> bool {
    etag.len() >= 2 && etag[0] == 'W' && etag[1] == '/'
}

/// The question that the entity tags raise, if any.
pub open spec fn etag_check(saved: Option<Seq<char>>, fresh: Option<Seq<char>>) -> Option<
    ResumeCheck,
> {
    if saved != fresh {
        Some(ResumeCheck::EtagMismatch)
    } else {
        match saved {
            Some(tag) => if is_weak(tag) {
                Some(ResumeCheck::WeakEtag)
            } else {
                None
            },
            None => Some(ResumeCheck::NoEtag),
        }
    }
}

/// An optional question as a list.
pub open spec fn as_list(c: Option<ResumeCheck>) -> Seq<ResumeCheck> {
    match c {
        Some(c) => seq![c],
        None => Seq::empty(),
    }
}

/// The questions to ask, in order: on the size, on the entity tag, on the
/// last-modified stamp.
pub open spec fn resume_checks_spec(entry: &Downloading, info: &UrlInfo) -> Seq<ResumeCheck> {
    as_list(
        if entry.file_size != info.size {
            Some(ResumeCheck::SizeMismatch)
        } else {
            None
        },
    ) + as_list(etag_check(opt_text(entry.etag), opt_text(info.file_id.etag))) + as_list(
        if opt_text(entry.last_modified) != opt_text(info.file_id.last_modified) {
            Some(ResumeCheck::LastModifiedMismatch)
        } else {
            None
        },
    )
}

/// Whether `etag` is a weak entity tag.
pub fn is_weak_etag(etag: &str) -> (weak: bool)
    ensures
        weak == is_weak(etag@),
{
    let chars = to_chars(etag);
    chars.len() >= 2 && chars[0] == 'W' && chars[1] == '/'
}

/// The questions that must be answered with yes before the stored record
/// `entry` is resumed against what the server reports now, in the order in
/// which they are asked. An empty list means that nothing stands against
/// resuming.
pub fn resume_checks(entry: &Downloading, info: &UrlInfo) -> (checks: Vec<ResumeCheck>)
    ensures
        checks@ == resume_checks_spec(entry, info),
{
    let mut checks: Vec<ResumeCheck> = Vec::new();
    if entry.file_size != info.size {
        checks.push(ResumeCheck::SizeMismatch);
    }
    let ghost first = checks@;
    if !opt_str_eq(&entry.etag, &info.file_id.etag) {
        checks.push(ResumeCheck::EtagMismatch);
    } else {
        match &entry.etag {
            Some(tag) => {
                if is_weak_etag(tag.as_str()) {
                    checks.push(ResumeCheck::WeakEtag);
                }
            },
            None => {
                checks.push(ResumeCheck::NoEtag);
            },
        }
    }
    let ghost second = checks@;
    assert(second =~= first + as_list(
        etag_check(opt_text(entry.etag), opt_text(info.file_id.etag)),
    ));
    if !opt_str_eq(&entry.last_modified, &info.file_id.last_modified) {
        checks.push(ResumeCheck::LastModifiedMismatch);
    }
    assert(checks@ =~= resume_checks_spec(entry, info));
    checks
}

/// Whether one of the questions says that the entity tag has changed.
pub open spec fn has_etag_mismatch(checks: Seq<ResumeCheck>) -> bool {
    exists|i: int| 0 <= i < checks.len() && checks[i] == ResumeCheck::EtagMismatch
}

/// Whether `checks` holds the question on a changed entity tag.
pub fn etag_changed(checks: &Vec<ResumeCheck>) -> (changed: bool)
    ensures
        changed == has_etag_mismatch(checks@),
{
    let n = checks.len();
    let mut i: usize = 0;
    while i < n
        invariant
            n == checks@.len(),
            0 <= i <= n,
            forall|j: int| 0 <= j < i ==> checks@[j] != ResumeCheck::EtagMismatch,
        decreases n - i,
    {
        if checks[i] == ResumeCheck::EtagMismatch {
            return true;
        }
        i += 1;
    }
    false
}

/// How a download starts: from which progress, with which work left.
#[derive(Debug, Clone, PartialEq, Eq)]
pub struct ResumePlan {
    /// Whether a stored partial download is taken up again.
    pub resume: bool,
    /// What is already written.
    pub write_progress: ProgressSet,
    /// What is to be fetched.
    pub download_chunks: ProgressSet,
    /// Active time of earlier sessions, in milliseconds.
    pub elapsed: u64,
}

/// The progress of a record as a ledger.
pub open spec fn stored_progress(entry: &Downloading) -> Seq<ProgressEntry> {
    merge_all(Seq::empty(), pairs_entries(entry.progress@))
}

/// A stored download can be resumed if the file is there, resuming is
/// asked for, the server serves ranges, a record exists, and the record
/// covers less than the size reported now.
pub open spec fn can_resume(
    file_exists: bool,
    resume: bool,
    info: &UrlInfo,
    entry: Option<&Downloading>,
) -> bool {
    file_exists && resume && info.fast_download && match entry {
        Some(e) => total_len(stored_progress(e)) < info.size,
        None => false,
    }
}

impl ResumePlan {
    pub open spec fn wf(&self) -> bool {
        self.write_progress.wf() && self.download_chunks.wf()
    }

    /// A download from the first byte: nothing is written, all of
    /// `[0, size)` is to be fetched.
    pub open spec fn is_fresh(&self, size: u64) -> bool {
        &&& !self.resume
        &&& self.write_progress@ == Seq::<ProgressEntry>::empty()
        &&& self.download_chunks@ == full_ledger(size)
        &&& self.elapsed == 0
    }

    /// A download that continues `entry`: what the record holds is written,
    /// and its complement in `[0, size)` is to be fetched, without the gaps
    /// shorter than `min_chunk_size`.
    pub open spec fn continues(&self, entry: &Downloading, size: u64, min_chunk_size: u64) -> bool {
        &&& self.resume
        &&& self.write_progress@ == stored_progress(entry)
        &&& self.download_chunks@ == invert_spec(stored_progress(entry), size, min_chunk_size)
        &&& self.elapsed == entry.elapsed
    }

    /// The plan for a download from the first byte.
    pub fn fresh(size: u64) -> (plan: Self)
        ensures
            plan.wf(),
            plan.is_fresh(size),
    {
        ResumePlan {
            resume: false,
            write_progress: ProgressSet::new(),
            download_chunks: ProgressSet::full(size),
            elapsed: 0,
        }
    }

    /// The plan with which a download starts, before any question is
    /// asked: it continues the record where that is possible, and starts
    /// from the first byte where it is not.
    pub fn prepare(
        file_exists: bool,
        resume: bool,
        info: &UrlInfo,
        entry: Option<&Downloading>,
        min_chunk_size: u64,
    ) -> (plan: Self)
        ensures
            plan.wf(),
            plan.resume == can_resume(file_exists, resume, info, entry),
            plan.resume ==> entry is Some && plan.continues(
                entry->Some_0,
                info.size,
                min_chunk_size,
            ),
            !plan.resume ==> plan.is_fresh(info.size),
    {
        if file_exists && resume && info.fast_download {
            if let Some(e) = entry {
                let written = ProgressSet::from_pairs(&e.progress);
                let downloaded = written.total();
                if downloaded < info.size {
                    let chunks = written.invert(info.size, min_chunk_size);
                    return ResumePlan {
                        resume: true,
                        write_progress: written,
                        download_chunks: chunks,
                        elapsed: e.elapsed,
                    };
                }
            }
        }
        ResumePlan::fresh(info.size)
    }

    /// The plan once every question in `checks` has been answered with
    /// yes. Where the entity tag has changed the stored bytes belong to
    /// another file, and the download starts over from the first byte;
    /// otherwise the plan stands.
    pub fn confirmed(self, checks: &Vec<ResumeCheck>, size: u64) -> (plan: Self)
        requires
            self.wf(),
        ensures
            plan.wf(),
            has_etag_mismatch(checks@) ==> plan.is_fresh(size),
            !has_etag_mismatch(checks@) ==> plan == self,
    {
        if etag_changed(checks) {
            ResumePlan::fresh(size)
        } else {
            self
        }
    }
}

/// Whether overwriting the existing file needs a yes: it does unless
/// everything is confirmed beforehand, the download resumes, or overwriting
/// is forced.
pub fn needs_overwrite_confirm(file_exists: bool, yes: bool, resume: bool, force: bool) -> (ask:
    bool)
    ensures
        ask == (file_exists && !yes && !resume && !force),
{
    file_exists && !yes && !resume && !force
}

/// How many workers pull: the number asked for, at least one, where the
/// server serves ranges; one where it does not.
pub fn effective_threads(fast_download: bool, threads: usize) -> (n: usize)
    ensures
        n >= 1,
        fast_download && threads >= 1 ==> n == threads,
        !fast_download || threads == 0 ==> n == 1,
{
    if fast_download && threads >= 1 {
        threads
    } else {
        1
    }
}

/// How many bytes are missing on the disk to hold `size` bytes where
/// `free` are available; `None` if they fit.
pub fn check_free_space(size: u64, free: u64) -> (lack: Option<u64>)
    ensures
        size <= free ==> lack is None,
        size > free ==> lack == Some((size - free) as u64),
{
    if size <= free {
        None
    } else {
        Some(size - free)
    }
}

/// How long to wait before the URL is probed again, in milliseconds: what
/// the server asked for, else the configured gap.
pub fn retry_delay(server_hint: Option<u64>, retry_gap: u64) -> (delay: u64)
    ensures
        delay == (match server_hint {
            Some(hint) => hint,
            None => retry_gap,
        }),
{
    match server_hint {
        Some(hint) => hint,
        None => retry_gap,
    }
}

/// Where a download stands.
#[derive(Clone, Copy, Debug, PartialEq, Eq, Structural)]
pub enum EngineState {
    /// The URL is probed and the questions are asked.
    Preparing,
    /// The workers run.
    Running,
    /// The workers stop, and what they handed over is written.
    Draining,
    /// The file is complete.
    Done,
    /// The download was given up; what is written stays for a later run.
    Aborted,
}

/// What happens to a download.
#[derive(Clone, Copy, Debug, PartialEq, Eq, Structural)]
pub enum EngineSignal {
    /// The workers were started.
    Started,
    /// A question was answered with no, or the disk has no room.
    Refused,
    /// The cancel flag was tripped.
    Cancelled,
    /// The workers have made their last report.
    EventsClosed,
    /// The workers and the writer have ended.
    Joined,
}

/// A download: where it stands, and whether it was cancelled.
#[derive(Clone, Copy, Debug, PartialEq, Eq, Structural)]
pub struct Engine {
    pub state: EngineState,
    pub cancelled: bool,
}

/// What is done with the file when a download ends.
#[derive(Clone, Copy, Debug, PartialEq, Eq, Structural)]
pub enum Closing {
    /// Nothing: the download has not ended.
    Nothing,
    /// The file gets its final name, and its record is removed.
    Publish,
    /// The file keeps its name, and the progress is stored for a later run.
    KeepPartial,
}

impl Engine {
    /// The download after `signal`. Preparing leads to running, or, when
    /// refused or cancelled, to the end; running leads to draining when it
    /// is cancelled or the workers are through; draining ends when workers
    /// and writer have ended: with the file complete, or, after a
    /// cancellation, given up. What does not fit the state changes nothing,
    /// but that a cancellation is always noted until the end is reached.
    pub open spec fn after(self, signal: EngineSignal) -> Engine {
        match (self.state, signal) {
            (EngineState::Preparing, EngineSignal::Started) => Engine {
                state: EngineState::Running,
                ..self
            },
            (EngineState::Preparing, EngineSignal::Refused) => Engine {
                state: EngineState::Aborted,
                ..self
            },
            (EngineState::Preparing, EngineSignal::Cancelled) => Engine {
                state: EngineState::Aborted,
                cancelled: true,
            },
            (EngineState::Running, EngineSignal::Cancelled) => Engine {
                state: EngineState::Draining,
                cancelled: true,
            },
            (EngineState::Running, EngineSignal::EventsClosed) => Engine {
                state: EngineState::Draining,
                ..self
            },
            (EngineState::Draining, EngineSignal::Cancelled) => Engine { cancelled: true, ..self },
            (EngineState::Draining, EngineSignal::Joined) => Engine {
                state: if self.cancelled {
                    EngineState::Aborted
                } else {
                    EngineState::Done
                },
                ..self
            },
            _ => self,
        }
    }

    /// What is done with the file in this state.
    pub open spec fn closing_spec(self) -> Closing {
        match self.state {
            EngineState::Done => Closing::Publish,
            EngineState::Aborted => Closing::KeepPartial,
            _ => Closing::Nothing,
        }
    }

    /// A download that is being prepared.
    pub fn new() -> (e: Self)
        ensures
            e == (Engine { state: EngineState::Preparing, cancelled: false }),
    {
        Engine { state: EngineState::Preparing, cancelled: false }
    }

    /// Takes in what happened.
    pub fn on_signal(&mut self, signal: EngineSignal)
        ensures
            *final(self) == old(self).after(signal),
    {
        match (self.state, signal) {
            (EngineState::Preparing, EngineSignal::Started) => {
                self.state = EngineState::Running;
            },
            (EngineState::Preparing, EngineSignal::Refused) => {
                self.state = EngineState::Aborted;
            },
            (EngineState::Preparing, EngineSignal::Cancelled) => {
                self.state = EngineState::Aborted;
                self.cancelled = true;
            },
            (EngineState::Running, EngineSignal::Cancelled) => {
                self.state = EngineState::Draining;
                self.cancelled = true;
            },
            (EngineState::Running, EngineSignal::EventsClosed) => {
                self.state = EngineState::Draining;
            },
            (EngineState::Draining, EngineSignal::Cancelled) => {
                self.cancelled = true;
            },
            (EngineState::Draining, EngineSignal::Joined) => {
                self.state = if self.cancelled {
                    EngineState::Aborted
                } else {
                    EngineState::Done
                };
            },
            _ => {},
        }
    }

    /// What is done with the file now.
    pub fn closing(&self) -> (c: Closing)
        ensures
            c == self.closing_spec(),
    {
        match self.state {
            EngineState::Done => Closing::Publish,
            EngineState::Aborted => Closing::KeepPartial,
            _ => Closing::Nothing,
        }
    }
}

/// However a download goes: once it has ended nothing changes it, and it
/// ends with the file complete only if it was never cancelled.
pub proof fn lemma_engine_end_is_final(e: Engine, signal: EngineSignal)
    ensures
        e.state == EngineState::Done || e.state == EngineState::Aborted ==> e.after(signal) == e,
        e.after(signal).state == EngineState::Done && e.state != EngineState::Done
            ==> !e.cancelled && !e.after(signal).cancelled,
        e.cancelled && e.state != EngineState::Done ==> e.after(signal).cancelled && e.after(
            signal,
        ).state != EngineState::Done,
{
}

/// The suffix of a file that is still being downloaded.
pub open spec fn part_suffix() -> Seq<char> {
    seq!['.', 'f', 'd', 'p', 'a', 'r', 't']
}

/// The name under which a file is kept while it is being downloaded.
pub fn part_file_name(name: &str) -> (part: String)
    ensures
        part@ == name@ + part_suffix(),
{
    let mut buf = to_chars(name);
    buf.push('.');
    buf.push('f');
    buf.push('d');
    buf.push('p');
    buf.push('a');
    buf.push('r');
    buf.push('t');
    assert(buf@ =~= name@ + part_suffix());
    crate::outside::from_chars(&buf)
}

} // verus!
