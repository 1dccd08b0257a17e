//! One worker as a state machine: what it reports and what it does next,
//! on each thing that happens to it. The one who runs the worker performs
//! the action and comes back with what happened.

use crate::event::{ConnectErrorKind, Event, WorkerId};
use crate::outside::from_chars;
use crate::progress::ProgressEntry;
use crate::text::{decimal, push_decimal, push_str, str_eq};
use vstd::prelude::*;

verus! {

/// After how many failed answers in a row a chunk is given up.
pub const MAX_PROTOCOL_FAILURES: u32 = 5;

/// What happened to the worker.
#[derive(Debug, Clone, PartialEq, Eq)]
pub enum PullInput {
    /// The dispatcher answered: the next chunk, or none.
    Chunk(Option<ProgressEntry>),
    /// The server answered the request with this status; `range_matches`
    /// says whether its `Content-Range` is the range asked for.
    Response { status: u16, range_matches: bool },
    /// The transport failed; the text says how.
    TransportError(String),
    /// The server closed the connection before the range was complete.
    Closed(String),
    /// Nothing arrived within the read timeout.
    Timeout,
    /// This many bytes arrived.
    Data(u64),
    /// The bytes were handed to the file.
    Pushed,
    /// The file refused the bytes; the text says why.
    PushFailed(String),
    /// The retry gap is over.
    Waited,
    /// The run is cancelled.
    Cancelled,
}

/// What the worker does next.
#[derive(Clone, Copy, Debug, PartialEq, Eq, Structural)]
pub enum PullAction {
    /// Ask the dispatcher for a chunk.
    NextChunk,
    /// Request this range from the server.
    Request(ProgressEntry),
    /// Read from the response.
    Read,
    /// Hand the bytes just read, which are those of this range, to the file.
    Push(ProgressEntry),
    /// Sleep for the retry gap.
    Wait,
    /// Stop for good.
    Stop,
}

/// Where the worker stands.
#[derive(Clone, Copy, Debug, PartialEq, Eq, Structural)]
pub enum Phase {
    /// It has no chunk.
    Idle,
    /// It has sent a request and waits for the answer.
    Requesting,
    /// It reads the body of the answer.
    Reading,
    /// It hands bytes of this range to the file.
    Pushing(ProgressEntry),
    /// It sleeps before it tries again.
    Waiting,
    /// It has stopped.
    Finished,
}

/// A worker: its number, whether it asks for ranges, its phase, where its
/// chunk begins, the part `[cursor, end)` of the chunk that it still has to
/// fetch, and how many answers failed in a row.
#[derive(Clone, Copy, Debug, PartialEq, Eq, Structural)]
pub struct Puller {
    pub id: WorkerId,
    /// A worker that asks for ranges takes up a chunk where it broke off.
    /// One that does not has to begin the chunk again.
    pub ranged: bool,
    pub phase: Phase,
    pub begin: u64,
    pub cursor: u64,
    pub end: u64,
    pub failures: u32,
}

/// The last offset of a range; zero for a range that ends at zero.
pub open spec fn last_offset(range: ProgressEntry) -> u64 {
    if range.end > 0 {
        (range.end - 1) as u64
    } else {
        0
    }
}

/// The `Range` header that asks for `range`: `bytes=`, the first offset, a
/// hyphen, the last offset.
pub open spec fn range_header_spec(range: ProgressEntry) -> Seq<char> {
    "bytes="@ + decimal(range.start as nat) + seq!['-'] + decimal(last_offset(range) as nat)
}

/// The `Content-Range` header that answers a request for `range` of a
/// file of `size` bytes: `bytes`, a space, the first offset, a hyphen, the
/// last offset, a slash, the size.
pub open spec fn content_range_spec(range: ProgressEntry, size: u64) -> Seq<char> {
    "bytes "@ + decimal(range.start as nat) + seq!['-'] + decimal(last_offset(range) as nat)
        + seq!['/'] + decimal(size as nat)
}

/// The value of the `Range` header that asks for `range`.
pub fn range_header(range: ProgressEntry) -> (value: String)
    ensures
        value@ == range_header_spec(range),
{
    let last = if range.end > 0 {
        range.end - 1
    } else {
        0
    };
    let mut buf: Vec<char> = Vec::new();
    push_str(&mut buf, "bytes=");
    push_decimal(&mut buf, range.start);
    buf.push('-');
    push_decimal(&mut buf, last);
    assert(buf@ =~= range_header_spec(range));
    from_chars(&buf)
}

/// The value of the `Content-Range` header that answers a request for
/// `range` of a file of `size` bytes.
pub fn content_range(range: ProgressEntry, size: u64) -> (value: String)
    ensures
        value@ == content_range_spec(range, size),
{
    let last = if range.end > 0 {
        range.end - 1
    } else {
        0
    };
    let mut buf: Vec<char> = Vec::new();
    push_str(&mut buf, "bytes ");
    push_decimal(&mut buf, range.start);
    buf.push('-');
    push_decimal(&mut buf, last);
    buf.push('/');
    push_decimal(&mut buf, size);
    assert(buf@ =~= content_range_spec(range, size));
    from_chars(&buf)
}

/// Whether the `Content-Range` that came with an answer is the one for
/// `range` of a file of `size` bytes. An answer without the header does not
/// match.
pub fn content_range_matches(header: Option<&str>, range: ProgressEntry, size: u64) -> (matches:
    bool)
    ensures
        matches == (match header {
            Some(h) => h@ == content_range_spec(range, size),
            None => false,
        }),
{
    match header {
        Some(h) => {
            let expected = content_range(range, size);
            str_eq(h, expected.as_str())
        },
        None => false,
    }
}

/// What one step gives: the reports, in order, and the next action.
#[derive(Debug, PartialEq, Eq)]
pub struct Step {
    pub events: Vec<Event>,
    pub action: PullAction,
}

/// A status that ends the chunk at once: a client error other than
/// 408 and 429.
pub open spec fn is_terminal_status(status: u16) -> bool {
    400 <= status <= 499 && status != 408 && status != 429
}

/// The answer that lets a worker read: 206 for the range asked for where
/// it asks for ranges, 200 where it does not.
pub open spec fn is_good_answer(ranged: bool, status: u16, range_matches: bool) -> bool {
    if ranged {
        status == 206 && range_matches
    } else {
        status == 200
    }
}

/// The lower of two counts.
pub open spec fn least(a: u64, b: u64) -> u64 {
    if a <= b {
        a
    } else {
        b
    }
}

impl Puller {
    pub open spec fn wf(self) -> bool {
        match self.phase {
            Phase::Idle => true,
            Phase::Finished => true,
            Phase::Pushing(r) => r.start == self.cursor && self.begin <= self.cursor < r.end
                <= self.end,
            _ => self.begin <= self.cursor < self.end,
        }
    }

    /// What is left of the chunk.
    pub open spec fn rest(self) -> ProgressEntry {
        ProgressEntry { start: self.cursor, end: self.end }
    }

    /// The action that the worker is about, from its phase alone.
    pub open spec fn pending_action(self) -> PullAction {
        match self.phase {
            Phase::Idle => PullAction::NextChunk,
            Phase::Requesting => PullAction::Request(self.rest()),
            Phase::Reading => PullAction::Read,
            Phase::Pushing(r) => PullAction::Push(r),
            Phase::Waiting => PullAction::Wait,
            Phase::Finished => PullAction::Stop,
        }
    }

    /// The worker after a failed answer: it waits to try again, or gives
    /// the chunk up after too many failures in a row.
    pub open spec fn after_failure(self) -> Puller {
        if self.failures + 1 >= MAX_PROTOCOL_FAILURES {
            Puller { phase: Phase::Idle, failures: 0, ..self }
        } else {
            Puller { phase: Phase::Waiting, failures: (self.failures + 1) as u32, ..self }
        }
    }

    /// The part of the next `len` bytes that belongs to the chunk.
    pub open spec fn arriving(self, len: u64) -> ProgressEntry {
        ProgressEntry {
            start: self.cursor,
            end: (self.cursor + least(len, (self.end - self.cursor) as u64)) as u64,
        }
    }

    /// The worker after `input`.
    pub open spec fn next(self, input: PullInput) -> Puller {
        match (self.phase, input) {
            (Phase::Finished, _) => self,
            (_, PullInput::Cancelled) => Puller { phase: Phase::Finished, ..self },
            (Phase::Idle, PullInput::Chunk(Some(r))) => if r.start < r.end {
                Puller {
                    phase: Phase::Requesting,
                    begin: r.start,
                    cursor: r.start,
                    end: r.end,
                    failures: 0,
                    ..self
                }
            } else {
                self
            },
            (Phase::Idle, PullInput::Chunk(None)) => Puller { phase: Phase::Finished, ..self },
            (Phase::Requesting, PullInput::Response { status, range_matches }) => if is_good_answer(
                self.ranged,
                status,
                range_matches,
            ) {
                Puller { phase: Phase::Reading, failures: 0, ..self }
            } else if is_terminal_status(status) {
                Puller { phase: Phase::Idle, failures: 0, ..self }
            } else {
                self.after_failure()
            },
            (Phase::Requesting, PullInput::TransportError(_)) => Puller {
                phase: Phase::Waiting,
                ..self
            },
            (Phase::Reading, PullInput::TransportError(_)) => Puller {
                phase: Phase::Waiting,
                ..self
            },
            (Phase::Requesting, PullInput::Timeout) => Puller { phase: Phase::Waiting, ..self },
            (Phase::Reading, PullInput::Timeout) => Puller { phase: Phase::Waiting, ..self },
            (Phase::Reading, PullInput::Closed(_)) => self.after_failure(),
            (Phase::Reading, PullInput::Data(len)) => if len > 0 {
                Puller { phase: Phase::Pushing(self.arriving(len)), ..self }
            } else {
                self
            },
            (Phase::Pushing(r), PullInput::Pushed) => if r.end == self.end {
                Puller { phase: Phase::Idle, cursor: r.end, failures: 0, ..self }
            } else {
                Puller { phase: Phase::Reading, cursor: r.end, ..self }
            },
            (Phase::Pushing(_), PullInput::PushFailed(_)) => Puller {
                phase: Phase::Finished,
                ..self
            },
            (Phase::Waiting, PullInput::Waited) => Puller {
                phase: Phase::Requesting,
                cursor: if self.ranged {
                    self.cursor
                } else {
                    self.begin
                },
                ..self
            },
            _ => self,
        }
    }

    /// What the worker reports on `input`, in order.
    pub open spec fn reports(self, input: PullInput) -> Seq<Event> {
        match (self.phase, input) {
            (Phase::Finished, _) => Seq::empty(),
            (_, PullInput::Cancelled) => seq![Event::Finished(self.id)],
            (Phase::Idle, PullInput::Chunk(Some(r))) => if r.start < r.end {
                seq![Event::Pulling(self.id)]
            } else {
                Seq::empty()
            },
            (Phase::Idle, PullInput::Chunk(None)) => seq![Event::Finished(self.id)],
            (Phase::Requesting, PullInput::Response { status, range_matches }) => if is_good_answer(
                self.ranged,
                status,
                range_matches,
            ) {
                Seq::empty()
            } else {
                seq![Event::PullError(self.id, ConnectErrorKind::StatusCode(status))]
            },
            (Phase::Requesting, PullInput::TransportError(text)) => seq![
                Event::PullError(self.id, ConnectErrorKind::Reqwest(text)),
            ],
            (Phase::Reading, PullInput::TransportError(text)) => seq![
                Event::PullError(self.id, ConnectErrorKind::Reqwest(text)),
            ],
            (Phase::Requesting, PullInput::Timeout) => seq![Event::PullTimeout(self.id)],
            (Phase::Reading, PullInput::Timeout) => seq![Event::PullTimeout(self.id)],
            (Phase::Reading, PullInput::Closed(text)) => seq![
                Event::PullError(self.id, ConnectErrorKind::Reqwest(text)),
            ],
            (Phase::Reading, PullInput::Data(len)) => if len > 0 {
                seq![Event::PullProgress(self.id, self.arriving(len))]
            } else {
                Seq::empty()
            },
            (Phase::Pushing(r), PullInput::Pushed) => seq![Event::PushProgress(self.id, r)],
            (Phase::Pushing(_), PullInput::PushFailed(text)) => seq![
                Event::PushError(self.id, text),
                Event::Finished(self.id),
            ],
            (Phase::Waiting, PullInput::Waited) => seq![Event::Pulling(self.id)],
            _ => Seq::empty(),
        }
    }

    /// A worker with the number `id` that has no chunk yet. With `ranged`
    /// it asks for ranges.
    pub fn new(id: WorkerId, ranged: bool) -> (p: Self)
        ensures
            p == (Puller {
                id,
                ranged,
                phase: Phase::Idle,
                begin: 0,
                cursor: 0,
                end: 0,
                failures: 0,
            }),
            p.wf(),
    {
        Puller { id, ranged, phase: Phase::Idle, begin: 0, cursor: 0, end: 0, failures: 0 }
    }

    /// What the worker is about.
    pub fn action(&self) -> (a: PullAction)
        ensures
            a == self.pending_action(),
    {
        match self.phase {
            Phase::Idle => PullAction::NextChunk,
            Phase::Requesting => PullAction::Request(
                ProgressEntry { start: self.cursor, end: self.end },
            ),
            Phase::Reading => PullAction::Read,
            Phase::Pushing(r) => PullAction::Push(r),
            Phase::Waiting => PullAction::Wait,
            Phase::Finished => PullAction::Stop,
        }
    }

    fn fail(&mut self)
        requires
            old(self).wf(),
            old(self).phase == Phase::Requesting || old(self).phase == Phase::Reading,
        ensures
            *final(self) == old(self).after_failure(),
            final(self).wf(),
    {
        if self.failures >= MAX_PROTOCOL_FAILURES - 1 {
            self.phase = Phase::Idle;
            self.failures = 0;
        } else {
            self.phase = Phase::Waiting;
            self.failures = self.failures + 1;
        }
    }

    /// Takes in what happened, and says what to report and what to do
    /// next.
    ///
    /// With a chunk the worker reports that it pulls and requests the
    /// chunk. An answer 206 for the right range (200 for a worker that does
    /// not ask for ranges) lets it read; a client error other than 408 and
    /// 429 ends the chunk; any other answer, and a connection closed too
    /// early, is tried again after the retry gap, up to five times in a
    /// row. Failures of the transport and timeouts are tried again without
    /// end. A new try asks for what is left of the chunk, or for all of it
    /// where the worker does not ask for ranges. Every failure is reported.
    /// Bytes that arrive are reported as pulled, handed to the file, and
    /// then reported as pushed; of more bytes than the chunk has left only
    /// those that belong to it count. When the chunk is complete the worker
    /// asks for the next. When the file refuses bytes, when no chunk is
    /// left, and on cancellation the worker reports that it has finished,
    /// and stops; from then on it reports nothing. What does not fit the
    /// phase is passed over.
    pub fn step(&mut self, input: PullInput) -> (out: Step)
        requires
            old(self).wf(),
        ensures
            final(self).wf(),
            *final(self) == old(self).next(input),
            out.events@ == old(self).reports(input),
            out.action == final(self).pending_action(),
    {
        let id = self.id;
        let mut events: Vec<Event> = Vec::new();
        match (self.phase, input) {
            (Phase::Finished, _) => {},
            (_, PullInput::Cancelled) => {
                self.phase = Phase::Finished;
                events.push(Event::Finished(id));
            },
            (Phase::Idle, PullInput::Chunk(Some(r))) => {
                if r.start < r.end {
                    self.phase = Phase::Requesting;
                    self.begin = r.start;
                    self.cursor = r.start;
                    self.end = r.end;
                    self.failures = 0;
                    events.push(Event::Pulling(id));
                }
            },
            (Phase::Idle, PullInput::Chunk(None)) => {
                self.phase = Phase::Finished;
                events.push(Event::Finished(id));
            },
            (Phase::Requesting, PullInput::Response { status, range_matches }) => {
                let good = if self.ranged {
                    status == 206 && range_matches
                } else {
                    status == 200
                };
                if good {
                    self.phase = Phase::Reading;
                    self.failures = 0;
                } else {
                    events.push(Event::PullError(id, ConnectErrorKind::StatusCode(status)));
                    if 400 <= status && status <= 499 && status != 408 && status != 429 {
                        self.phase = Phase::Idle;
                        self.failures = 0;
                    } else {
                        self.fail();
                    }
                }
            },
            (Phase::Requesting, PullInput::TransportError(text)) => {
                self.phase = Phase::Waiting;
                events.push(Event::PullError(id, ConnectErrorKind::Reqwest(text)));
            },
            (Phase::Reading, PullInput::TransportError(text)) => {
                self.phase = Phase::Waiting;
                events.push(Event::PullError(id, ConnectErrorKind::Reqwest(text)));
            },
            (Phase::Requesting, PullInput::Timeout) => {
                self.phase = Phase::Waiting;
                events.push(Event::PullTimeout(id));
            },
            (Phase::Reading, PullInput::Timeout) => {
                self.phase = Phase::Waiting;
                events.push(Event::PullTimeout(id));
            },
            (Phase::Reading, PullInput::Closed(text)) => {
                events.push(Event::PullError(id, ConnectErrorKind::Reqwest(text)));
                self.fail();
            },
            (Phase::Reading, PullInput::Data(len)) => {
                if len > 0 {
                    let left = self.end - self.cursor;
                    let taken = if len <= left {
                        len
                    } else {
                        left
                    };
                    let range = ProgressEntry { start: self.cursor, end: self.cursor + taken };
                    self.phase = Phase::Pushing(range);
                    events.push(Event::PullProgress(id, range));
                }
            },
            (Phase::Pushing(r), PullInput::Pushed) => {
                events.push(Event::PushProgress(id, r));
                self.cursor = r.end;
                if r.end == self.end {
                    self.phase = Phase::Idle;
                    self.failures = 0;
                } else {
                    self.phase = Phase::Reading;
                }
            },
            (Phase::Pushing(_), PullInput::PushFailed(text)) => {
                self.phase = Phase::Finished;
                events.push(Event::PushError(id, text));
                events.push(Event::Finished(id));
            },
            (Phase::Waiting, PullInput::Waited) => {
                self.phase = Phase::Requesting;
                if !self.ranged {
                    self.cursor = self.begin;
                }
                events.push(Event::Pulling(id));
            },
            _ => {},
        }
        assert(events@ =~= old(self).reports(input));
        let action = self.action();
        Step { events, action }
    }
}

/// What a worker reports over a run of inputs, in order.
pub open spec fn trace(p: Puller, inputs: Seq<PullInput>) -> Seq<Event>
    decreases inputs.len(),
{
    if inputs.len() == 0 {
        Seq::empty()
    } else {
        p.reports(inputs[0]) + trace(p.next(inputs[0]), inputs.drop_first())
    }
}

/// A worker that has stopped reports nothing more.
pub proof fn lemma_finished_is_silent(p: Puller, inputs: Seq<PullInput>)
    requires
        p.phase == Phase::Finished,
    ensures
        trace(p, inputs) == Seq::<Event>::empty(),
    decreases inputs.len(),
{
    if inputs.len() > 0 {
        lemma_finished_is_silent(p.next(inputs[0]), inputs.drop_first());
        assert(p.reports(inputs[0]) + trace(p.next(inputs[0]), inputs.drop_first()) =~= Seq::<
            Event,
        >::empty());
    }
}

/// Whatever happens to a worker, in whatever order: every report it makes
/// carries its own number, and a report that it has finished is the last
/// report it makes, so that it makes at most one.
pub proof fn lemma_finished_is_last(p: Puller, inputs: Seq<PullInput>)
    ensures
        forall|i: int|
            0 <= i < trace(p, inputs).len() ==> (#[trigger] trace(p, inputs)[i]).worker_spec()
                == Some(p.id),
        forall|i: int|
            0 <= i < trace(p, inputs).len() && (#[trigger] trace(p, inputs)[i]) is Finished ==> i
                == trace(p, inputs).len() - 1,
    decreases inputs.len(),
{
    if inputs.len() > 0 {
        let first = p.reports(inputs[0]);
        let q = p.next(inputs[0]);
        let rest = trace(q, inputs.drop_first());
        let t = trace(p, inputs);
        assert(t == first + rest);
        lemma_finished_is_last(q, inputs.drop_first());
        assert(q.id == p.id);
        if exists|i: int| 0 <= i < first.len() && (#[trigger] first[i]) is Finished {
            assert(q.phase == Phase::Finished);
            lemma_finished_is_silent(q, inputs.drop_first());
        }
        assert forall|i: int| 0 <= i < t.len() implies (#[trigger] t[i]).worker_spec() == Some(
            p.id,
        ) by {
            if i >= first.len() {
                assert(t[i] == rest[i - first.len()]);
            } else {
                assert(t[i] == first[i]);
            }
        }
        assert forall|i: int| 0 <= i < t.len() && (#[trigger] t[i]) is Finished implies i
            == t.len() - 1 by {
            if i >= first.len() {
                assert(t[i] == rest[i - first.len()]);
            } else {
                assert(t[i] == first[i]);
                assert(first[i] is Finished);
                assert(i == first.len() - 1);
            }
        }
    }
}

/// The `k`-th report of the trace `t` of the worker `p`, which tells of a
/// written range, stands right behind the report that the same worker has
/// pulled the same range; or it is the first report of a worker that was
/// handing that range to the file.
pub open spec fn follows_pull(p: Puller, t: Seq<Event>, k: int) -> bool {
    let w = t[k]->PushProgress_0;
    let r = t[k]->PushProgress_1;
    (k == 0 && p.phase == Phase::Pushing(r)) || (k >= 1 && t[k - 1] == Event::PullProgress(w, r))
}

/// Whatever happens to a worker: it reports a range as written only right
/// after it has reported the same range as pulled. (A worker that is taken
/// up while it hands bytes to the file has reported them as pulled
/// before.)
pub proof fn lemma_push_follows_pull(p: Puller, inputs: Seq<PullInput>)
    requires
        p.wf(),
    ensures
        forall|k: int|
            0 <= k < trace(p, inputs).len() && (#[trigger] trace(p, inputs)[k]) is PushProgress
                ==> follows_pull(p, trace(p, inputs), k),
    decreases inputs.len(),
{
    if inputs.len() > 0 {
        let first = p.reports(inputs[0]);
        let q = p.next(inputs[0]);
        let rest = trace(q, inputs.drop_first());
        let t = trace(p, inputs);
        assert(t == first + rest);
        lemma_step_keeps_wf(p, inputs[0]);
        lemma_push_follows_pull(q, inputs.drop_first());
        assert forall|k: int| 0 <= k < t.len() && (#[trigger] t[k]) is PushProgress implies
            follows_pull(p, t, k) by {
            if k < first.len() {
                assert(t[k] == first[k]);
            } else {
                let j = k - first.len();
                assert(t[k] == rest[j]);
                assert(follows_pull(q, rest, j));
                if j >= 1 {
                    assert(t[k - 1] == rest[j - 1]);
                } else {
                    if first.len() > 0 {
                        assert(t[k - 1] == first[first.len() - 1]);
                        lemma_finished_is_last(q, inputs.drop_first());
                        assert(rest[j].worker_spec() == Some(q.id));
                    }
                }
            }
        }
    }
}

/// A step keeps the worker well-formed.
pub proof fn lemma_step_keeps_wf(p: Puller, input: PullInput)
    requires
        p.wf(),
    ensures
        p.next(input).wf(),
{
}

} // verus!
