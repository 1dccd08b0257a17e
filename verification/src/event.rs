//! What the workers report while a download runs.

use crate::progress::ProgressEntry;
use vstd::prelude::*;

verus! {

/// Workers are numbered from zero; a single-stream download has worker 0
/// only.
pub type WorkerId = usize;

/// Why a request for a range failed.
#[derive(Debug, Clone, PartialEq, Eq)]
pub enum ConnectErrorKind {
    /// The transport failed; the text says how.
    Reqwest(String),
    /// The server answered a ranged request with a status other than 206.
    StatusCode(u16),
}

/// One report from a worker. The reports of one worker arrive in the order
/// in which it made them.
#[derive(Debug, Clone, PartialEq, Eq)]
pub enum Event {
    /// The worker is requesting a range.
    Pulling(WorkerId),
    /// The worker has received the bytes of this range.
    PullProgress(WorkerId, ProgressEntry),
    /// A request or a read failed; the worker tries again.
    PullError(WorkerId, ConnectErrorKind),
    /// Nothing arrived within the read timeout; the worker tries again.
    PullTimeout(WorkerId),
    /// The bytes of this range have been handed to the file.
    PushProgress(WorkerId, ProgressEntry),
    /// Writing failed.
    PushError(WorkerId, String),
    /// Finishing the file failed.
    FlushError(String),
    /// The worker has nothing more to do.
    Finished(WorkerId),
}

impl Event {
    /// The range that the event reports as written, if it reports one.
    pub open spec fn pushed(self) -> Option<ProgressEntry> {
        match self {
            Event::PushProgress(_, range) => Some(range),
            _ => None,
        }
    }

    /// The worker that made the report; a flush error comes from none.
    pub open spec fn worker_spec(self) -> Option<WorkerId> {
        match self {
            Event::Pulling(id) => Some(id),
            Event::PullProgress(id, _) => Some(id),
            Event::PullError(id, _) => Some(id),
            Event::PullTimeout(id) => Some(id),
            Event::PushProgress(id, _) => Some(id),
            Event::PushError(id, _) => Some(id),
            Event::FlushError(_) => None,
            Event::Finished(id) => Some(id),
        }
    }

    /// The worker that made the report.
    pub fn worker(&self) -> (id: Option<WorkerId>)
        ensures
            id == self.worker_spec(),
    {
        match self {
            Event::Pulling(id) => Some(*id),
            Event::PullProgress(id, _) => Some(*id),
            Event::PullError(id, _) => Some(*id),
            Event::PullTimeout(id) => Some(*id),
            Event::PushProgress(id, _) => Some(*id),
            Event::PushError(id, _) => Some(*id),
            Event::FlushError(_) => None,
            Event::Finished(id) => Some(*id),
        }
    }
}

} // verus!
