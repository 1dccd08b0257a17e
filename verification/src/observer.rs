//! The consumer of the workers' reports: it keeps the ledger of written
//! ranges and says what to do on each report.

use crate::event::{Event, WorkerId};
use crate::ledger::ProgressSet;
use crate::ledger_laws::{lemma_ledger_unique, lemma_merge_all};
use crate::progress::{
    covers, entries_pairs, full_ledger, is_ledger, lemma_merge_spec, merge_all, merge_spec,
    ProgressEntry,
};
use vstd::prelude::*;

verus! {

/// What the user is told.
#[derive(Clone, Copy, Debug, PartialEq, Eq, Structural)]
pub enum Notice {
    Pulling(WorkerId),
    Finished(WorkerId),
    PullTimeout(WorkerId),
    PullError(WorkerId),
    PushError(WorkerId),
    FlushError,
}

/// What follows from one report.
#[derive(Clone, Copy, Debug, PartialEq, Eq, Structural)]
pub enum Reaction {
    /// Nothing.
    Quiet,
    /// Show the pulled range. With `restart` the worker has begun again at
    /// the first byte, and what was shown before is void.
    Paint { restart: bool, range: ProgressEntry },
    /// Hand the ledger to the store.
    Persist,
    /// Tell the user.
    Report(Notice),
    /// Tell the user and cancel the run: the file cannot be written.
    Abort(Notice),
}

/// The state of the consumer.
#[derive(Debug)]
pub struct Observer {
    /// The merged ranges of all `PushProgress` reports so far.
    pub write_progress: ProgressSet,
    /// Whether the user is told of each request and each finished worker.
    pub verbose: bool,
    /// The least time between two updates of the store, in milliseconds.
    pub persist_gap: u64,
    /// When the store was last updated, in milliseconds on the run's clock.
    pub last_persist: u64,
}

/// Whether an update of the store is due at `now`.
pub open spec fn persist_due(now: u64, last: u64, gap: u64) -> bool {
    now >= last && now - last >= gap
}

/// The reaction to `event`.
pub open spec fn reaction_to(event: Event, verbose: bool, due: bool) -> Reaction {
    match event {
        Event::Pulling(id) => if verbose {
            Reaction::Report(Notice::Pulling(id))
        } else {
            Reaction::Quiet
        },
        Event::PullProgress(_, range) => Reaction::Paint { restart: range.start == 0, range },
        Event::PullError(id, _) => Reaction::Report(Notice::PullError(id)),
        Event::PullTimeout(id) => Reaction::Report(Notice::PullTimeout(id)),
        Event::PushProgress(_, _) => if due {
            Reaction::Persist
        } else {
            Reaction::Quiet
        },
        Event::PushError(id, _) => Reaction::Abort(Notice::PushError(id)),
        Event::FlushError(_) => Reaction::Abort(Notice::FlushError),
        Event::Finished(id) => if verbose {
            Reaction::Report(Notice::Finished(id))
        } else {
            Reaction::Quiet
        },
    }
}

/// The ledger after `event`.
pub open spec fn ledger_after(ledger: Seq<ProgressEntry>, event: Event) -> Seq<ProgressEntry> {
    match event.pushed() {
        Some(range) => merge_spec(ledger, range),
        None => ledger,
    }
}

/// The ranges that the events report as written, in order.
pub open spec fn pushed_ranges(events: Seq<Event>) -> Seq<ProgressEntry>
    decreases events.len(),
{
    if events.len() == 0 {
        Seq::empty()
    } else {
        match events[0].pushed() {
            Some(range) => seq![range] + pushed_ranges(events.drop_first()),
            None => pushed_ranges(events.drop_first()),
        }
    }
}

/// The ledger after all of `events`, one after another.
pub open spec fn ledger_after_all(ledger: Seq<ProgressEntry>, events: Seq<Event>) -> Seq<
    ProgressEntry,
>
    decreases events.len(),
{
    if events.len() == 0 {
        ledger
    } else {
        ledger_after_all(ledger_after(ledger, events[0]), events.drop_first())
    }
}

impl Observer {
    pub open spec fn wf(&self) -> bool {
        self.write_progress.wf()
    }

    /// A consumer that starts from `write_progress` at time `now`.
    pub fn new(write_progress: ProgressSet, verbose: bool, persist_gap: u64, now: u64) -> (o: Self)
        requires
            write_progress.wf(),
        ensures
            o.wf(),
            o.write_progress == write_progress,
            o.verbose == verbose,
            o.persist_gap == persist_gap,
            o.last_persist == now,
    {
        Observer { write_progress, verbose, persist_gap, last_persist: now }
    }

    /// Takes in one report at time `now`. A written range is merged into the
    /// ledger, and the store is to be updated if the last update lies at
    /// least `persist_gap` back; pulled ranges are to be shown; failures to
    /// write cancel the run; the rest is told to the user, requests and
    /// finished workers only where `verbose` is set.
    pub fn on_event(&mut self, event: &Event, now: u64) -> (reaction: Reaction)
        requires
            old(self).wf(),
        ensures
            final(self).wf(),
            final(self).write_progress@ == ledger_after(old(self).write_progress@, *event),
            final(self).verbose == old(self).verbose,
            final(self).persist_gap == old(self).persist_gap,
            reaction == reaction_to(
                *event,
                old(self).verbose,
                persist_due(now, old(self).last_persist, old(self).persist_gap),
            ),
            final(self).last_persist == (if reaction == Reaction::Persist {
                now
            } else {
                old(self).last_persist
            }),
    {
        match event {
            Event::Pulling(id) => {
                if self.verbose {
                    Reaction::Report(Notice::Pulling(*id))
                } else {
                    Reaction::Quiet
                }
            },
            Event::PullProgress(_, range) => Reaction::Paint {
                restart: range.start == 0,
                range: *range,
            },
            Event::PullError(id, _) => Reaction::Report(Notice::PullError(*id)),
            Event::PullTimeout(id) => Reaction::Report(Notice::PullTimeout(*id)),
            Event::PushProgress(_, range) => {
                self.write_progress.merge(*range);
                if now >= self.last_persist && now - self.last_persist >= self.persist_gap {
                    self.last_persist = now;
                    Reaction::Persist
                } else {
                    Reaction::Quiet
                }
            },
            Event::PushError(id, _) => Reaction::Abort(Notice::PushError(*id)),
            Event::FlushError(_) => Reaction::Abort(Notice::FlushError),
            Event::Finished(id) => {
                if self.verbose {
                    Reaction::Report(Notice::Finished(*id))
                } else {
                    Reaction::Quiet
                }
            },
        }
    }

    /// What goes to the store: the ledger as it stands, as pairs of start
    /// and end offset.
    pub fn snapshot(&self) -> (pairs: Vec<(u64, u64)>)
        ensures
            pairs@ == entries_pairs(self.write_progress@),
    {
        self.write_progress.to_pairs()
    }

    /// Whether all of `[0, size)` is written, and nothing beyond.
    pub fn is_complete(&self, size: u64) -> (done: bool)
        ensures
            done == (self.write_progress@ == full_ledger(size)),
    {
        self.write_progress.is_full(size)
    }
}

/// Whatever the workers report, in whatever order: the ledger after the
/// reports is the ledger before them with every range merged in that a
/// `PushProgress` carried; it is in canonical form and covers what was
/// covered before and those ranges.
pub proof fn lemma_ledger_follows_pushes(ledger: Seq<ProgressEntry>, events: Seq<Event>)
    requires
        is_ledger(ledger),
    ensures
        ledger_after_all(ledger, events) == merge_all(ledger, pushed_ranges(events)),
        is_ledger(ledger_after_all(ledger, events)),
        forall|x: int|
            covers(ledger_after_all(ledger, events), x) <==> (covers(ledger, x) || covers(
                pushed_ranges(events),
                x,
            )),
    decreases events.len(),
{
    if events.len() > 0 {
        let rest = events.drop_first();
        match events[0].pushed() {
            Some(range) => {
                lemma_merge_spec(ledger, range);
                lemma_ledger_follows_pushes(merge_spec(ledger, range), rest);
                let rs = pushed_ranges(events);
                assert(rs[0] == range);
                assert(rs.drop_first() =~= pushed_ranges(rest));
            },
            None => {
                lemma_ledger_follows_pushes(ledger, rest);
            },
        }
    }
    lemma_merge_all(ledger, pushed_ranges(events));
}

/// Where no written range reaches beyond `size`, and the ledger did not
/// either, the ledger never holds more than `size` bytes.
pub proof fn lemma_total_stays_within(ledger: Seq<ProgressEntry>, events: Seq<Event>, size: u64)
    requires
        is_ledger(ledger),
        crate::progress::within(ledger, size as int),
        forall|i: int|
            0 <= i < events.len() && (#[trigger] events[i]).pushed() is Some
                ==> events[i].pushed()->Some_0.end <= size,
    ensures
        crate::progress::within(ledger_after_all(ledger, events), size as int),
        crate::progress::total_len(ledger_after_all(ledger, events)) <= size,
    decreases events.len(),
{
    if events.len() > 0 {
        let rest = events.drop_first();
        let next = ledger_after(ledger, events[0]);
        match events[0].pushed() {
            Some(range) => {
                lemma_merge_spec(ledger, range);
                crate::ledger_laws::lemma_merge_within(ledger, range, size as int);
            },
            None => {},
        }
        assert forall|i: int| 0 <= i < rest.len() && (#[trigger] rest[i]).pushed() is Some implies
            rest[i].pushed()->Some_0.end <= size by {
            assert(rest[i] == events[i + 1]);
        }
        lemma_total_stays_within(next, rest, size);
    } else {
        crate::progress::lemma_total_within(ledger, size as int);
    }
}

/// When the ranges written in a run, together with what was written before
/// it, make up `[0, size)` and nothing else, the ledger at the end of the
/// run is the one range `[0, size)`.
pub proof fn lemma_complete_run(ledger: Seq<ProgressEntry>, events: Seq<Event>, size: u64)
    requires
        is_ledger(ledger),
        forall|x: int|
            (covers(ledger, x) || covers(pushed_ranges(events), x)) <==> 0 <= x < size,
    ensures
        ledger_after_all(ledger, events) == full_ledger(size),
{
    lemma_ledger_follows_pushes(ledger, events);
    let pushed = pushed_ranges(events);
    let end = merge_all(ledger, pushed);
    assert(end == ledger_after_all(ledger, events));
    lemma_merge_all(ledger, pushed);
    let full = full_ledger(size);
    assert forall|x: int| covers(end, x) <==> covers(full, x) by {
        assert(covers(merge_all(ledger, pushed), x) <==> (covers(ledger, x) || covers(pushed, x)));
        assert((covers(ledger, x) || covers(pushed, x)) <==> 0 <= x < size);
        if covers(full, x) {
            let i = choose|i: int| 0 <= i < full.len() && (#[trigger] full[i]).contains(x);
            assert(full[i].contains(x));
        }
        if 0 <= x < size {
            assert(full[0].contains(x));
        }
    }
    lemma_ledger_unique(end, full);
}

} // verus!
