//! Whole runs of the scheduler: what holds of every sequence of events.
//!
//! The contracts of [`Scheduler`](crate::rate_limiter::scheduler::Scheduler) speak
//! of one event at a time. Here the events are strung together, and what a caller
//! of the limiter relies on is proved of the whole run: a waiting request is granted
//! once at most, and only a request that was made is ever granted.

use crate::rate_limiter::bucket::Unsatisfiable;
use crate::rate_limiter::scheduler::{Admission, SchedulerView};
use vstd::prelude::*;

verus! {

/// Something that happens to a scheduler, with the instant at which it happens.
#[derive(Clone, Copy, Debug, PartialEq, Eq, Structural)]
pub enum Event {
    /// A caller asks for `amount` units.
    Request { amount: u64, now: u64 },
    /// The timer set for the oldest waiting request fires.
    Timer { now: u64 },
    /// The caller that waits under `ticket` gives up.
    Withdrawal { ticket: u64 },
    /// The scheduler is asked how long to sleep.
    Lookup { now: u64 },
}

/// What the scheduler answers to an event.
pub enum Outcome {
    /// The answer to a request.
    Admitted(Result<Admission, Unsatisfiable>),
    /// The ticket that a timer granted, if any.
    Woken(Option<u64>),
    /// The amount of the request that a withdrawal removed, if any.
    Withdrawn(Option<u64>),
    /// The wait until the next wake, if any request waits.
    NextWake(Option<nat>),
}

/// `outcome` puts a request into the queue under `ticket`.
pub open spec fn queues(outcome: Outcome, ticket: u64) -> bool {
    outcome == Outcome::Admitted(Ok(Admission::Queued { ticket }))
}

/// `outcome` grants the request that waited under `ticket`.
pub open spec fn wakes(outcome: Outcome, ticket: u64) -> bool {
    outcome == Outcome::Woken(Some(ticket))
}

/// `event` withdraws `ticket`, and `outcome` says that a request waited under it.
pub open spec fn withdraws(event: Event, outcome: Outcome, ticket: u64) -> bool {
    &&& event == (Event::Withdrawal { ticket })
    &&& outcome is Withdrawn
    &&& outcome->Withdrawn_0 is Some
}

impl SchedulerView {
    /// The scheduler after `event`, and its answer.
    pub open spec fn step(self, event: Event) -> (SchedulerView, Outcome) {
        match event {
            Event::Request { amount, now } => {
                let (next, admission) = self.request(amount, now);
                (next, Outcome::Admitted(admission))
            },
            Event::Timer { now } => {
                let (next, granted) = self.wake(now);
                (next, Outcome::Woken(granted))
            },
            Event::Withdrawal { ticket } => {
                let (next, amount) = self.withdraw(ticket);
                (next, Outcome::Withdrawn(amount))
            },
            Event::Lookup { now } => {
                let (next, wait) = self.next_wake(now);
                (next, Outcome::NextWake(wait))
            },
        }
    }

    /// The scheduler after `events`, one after the other, and its answers in the
    /// same order.
    pub open spec fn run(self, events: Seq<Event>) -> (SchedulerView, Seq<Outcome>)
        decreases events.len(),
    {
        if events.len() == 0 {
            (self, Seq::empty())
        } else {
            let (before, outcomes) = self.run(events.drop_last());
            let (after, outcome) = before.step(events.last());
            (after, outcomes.push(outcome))
        }
    }

    /// What one event does to the tickets: the scheduler stays well formed and
    /// hands out one ticket at most; a queued ticket is the next one to hand out
    /// and waits afterwards; a granted or withdrawn ticket waited before and
    /// does not wait afterwards; and nothing else joins the queue.
    pub proof fn lemma_step_accounts_for_tickets(self, event: Event)
        requires
            self.wf(),
            self.issued < u64::MAX,
        ensures
            self.step(event).0.wf(),
            self.issued <= self.step(event).0.issued <= self.issued + 1,
            forall|ticket: u64| #[trigger]
                queues(self.step(event).1, ticket) ==> {
                    &&& event is Request
                    &&& ticket == self.issued
                    &&& self.step(event).0.issued == self.issued + 1
                    &&& self.step(event).0.is_pending(ticket)
                },
            forall|ticket: u64| #[trigger]
                wakes(self.step(event).1, ticket) ==> {
                    &&& event is Timer
                    &&& self.is_pending(ticket)
                    &&& !self.step(event).0.is_pending(ticket)
                },
            forall|ticket: u64| #[trigger]
                withdraws(event, self.step(event).1, ticket) ==> {
                    &&& self.is_pending(ticket)
                    &&& !self.step(event).0.is_pending(ticket)
                },
            forall|ticket: u64| #[trigger]
                self.step(event).0.is_pending(ticket) ==> self.is_pending(ticket) || queues(
                    self.step(event).1,
                    ticket,
                ),
            forall|ticket: u64| #[trigger] self.is_pending(ticket) ==> ticket < self.issued,
            self.step(event).1 == Outcome::Admitted(Ok(Admission::Granted)) ==> event is Request,
    {
        let (next, outcome) = self.step(event);
        assert forall|ticket: u64| #[trigger] self.is_pending(ticket) implies ticket
            < self.issued by {
            assert(self.pending[self.slot(ticket)].ticket < self.issued);
        }
        match event {
            Event::Request { amount, now } => {
                self.lemma_request_preserves_wf(amount, now);
                if next.pending != self.pending {
                    let ticket = self.issued as u64;
                    assert(next.pending[self.pending.len() as int].ticket == ticket);
                    assert forall|other: u64| #[trigger] next.is_pending(other) implies (
                    self.is_pending(other) || queues(outcome, other)) by {
                        let slot = next.slot(other);
                        if slot < self.pending.len() {
                            assert(self.pending[slot].ticket == other);
                        }
                    }
                }
            },
            Event::Timer { now } => {
                self.lemma_wake_preserves_wf(now);
                if next.pending != self.pending {
                    self.lemma_removal_accounts_for_tickets(0);
                }
            },
            Event::Withdrawal { ticket } => {
                self.lemma_withdraw_preserves_wf(ticket);
                if self.is_pending(ticket) {
                    self.lemma_removal_accounts_for_tickets(self.slot(ticket));
                }
            },
            Event::Lookup { now } => {
                self.lemma_next_wake_preserves_wf(now);
            },
        }
    }

    /// Taking the request at `place` out of the queue removes its ticket and no
    /// other.
    proof fn lemma_removal_accounts_for_tickets(self, place: int)
        requires
            self.wf(),
            0 <= place < self.pending.len(),
        ensures
            self.is_pending(self.pending[place].ticket),
            forall|bucket, ticket: u64| #[trigger]
                (SchedulerView { bucket, pending: self.pending.remove(place), ..self }).is_pending(
                    ticket,
                ) ==> self.is_pending(ticket) && ticket != self.pending[place].ticket,
    {
        let rest = self.pending.remove(place);
        assert forall|bucket, ticket: u64| #[trigger]
            (SchedulerView { bucket, pending: rest, ..self }).is_pending(ticket) implies (
        self.is_pending(ticket) && ticket != self.pending[place].ticket) by {
            let after = SchedulerView { bucket, pending: rest, ..self };
            let slot = after.slot(ticket);
            let from = if slot < place {
                slot
            } else {
                slot + 1
            };
            assert(self.pending[from].ticket == ticket);
            if from < place {
                assert(self.pending[from].ticket < self.pending[place].ticket);
            } else {
                assert(self.pending[place].ticket < self.pending[from].ticket);
            }
        }
    }

    /// What has been established of a run that led from `self` to `end`.
    closed spec fn ledger(self, end: SchedulerView, events: Seq<Event>, outcomes: Seq<Outcome>) -> bool {
        &&& end.wf()
        &&& outcomes.len() == events.len()
        &&& self.issued <= end.issued <= self.issued + events.len()
        &&& forall|i: int, ticket: u64|
            0 <= i < outcomes.len() && #[trigger] queues(outcomes[i], ticket) ==> events[i]
                is Request && self.issued <= ticket < end.issued
        &&& forall|i: int, ticket: u64|
            0 <= i < outcomes.len() && #[trigger] wakes(outcomes[i], ticket) ==> ticket
                < end.issued && !end.is_pending(ticket)
        &&& forall|i: int, ticket: u64|
            0 <= i < outcomes.len() && #[trigger] withdraws(events[i], outcomes[i], ticket)
                ==> ticket < end.issued && !end.is_pending(ticket)
        &&& forall|ticket: u64| #[trigger]
            end.is_pending(ticket) ==> self.is_pending(ticket) || queued_before(
                outcomes,
                outcomes.len() as int,
                ticket,
            )
        &&& forall|j: int, ticket: u64|
            0 <= j < outcomes.len() && #[trigger] wakes(outcomes[j], ticket) ==> events[j]
                is Timer && (self.is_pending(ticket) || queued_before(outcomes, j, ticket))
        &&& forall|i: int, j: int, ticket: u64|
            0 <= i < j < outcomes.len() && #[trigger] wakes(outcomes[i], ticket) ==> !(
            #[trigger] wakes(outcomes[j], ticket))
        &&& forall|i: int, j: int, ticket: u64|
            0 <= i < j < outcomes.len() && #[trigger] withdraws(events[i], outcomes[i], ticket)
                ==> !(#[trigger] wakes(outcomes[j], ticket))
        &&& forall|i: int, j: int, ticket: u64|
            0 <= i < j < outcomes.len() && #[trigger] queues(outcomes[i], ticket) ==> !(
            #[trigger] queues(outcomes[j], ticket))
        &&& forall|i: int|
            0 <= i < outcomes.len() && #[trigger] outcomes[i] == Outcome::Admitted(
                Ok(Admission::Granted),
            ) ==> events[i] is Request
    }

    proof fn lemma_run_keeps_ledger(self, events: Seq<Event>)
        requires
            self.wf(),
            self.issued + events.len() <= u64::MAX,
        ensures
            self.ledger(self.run(events).0, events, self.run(events).1),
        decreases events.len(),
    {
        if events.len() > 0 {
            let earlier = events.drop_last();
            let event = events.last();
            let (before, seen) = self.run(earlier);
            let (after, outcome) = before.step(event);
            let outcomes = seen.push(outcome);
            let last = seen.len() as int;
            self.lemma_run_keeps_ledger(earlier);
            before.lemma_step_accounts_for_tickets(event);
            assert(self.run(events) == (after, outcomes));
            assert forall|i: int| 0 <= i < last implies outcomes[i] == seen[i] && events[i]
                == earlier[i] by {}
            assert forall|j: int, ticket: u64|
                0 <= j <= last && queued_before(seen, j, ticket) implies queued_before(
                outcomes,
                j,
                ticket,
            ) by {
                let i = choose|i: int| 0 <= i < j && #[trigger] queues(seen[i], ticket);
                assert(queues(outcomes[i], ticket));
            }
            assert forall|ticket: u64| #[trigger] after.is_pending(ticket) implies (
            self.is_pending(ticket) || queued_before(outcomes, outcomes.len() as int, ticket)) by {
                if queues(outcome, ticket) {
                    assert(queues(outcomes[last], ticket));
                } else {
                    assert(before.is_pending(ticket));
                }
            }
            assert forall|i: int, ticket: u64|
                0 <= i < outcomes.len() && #[trigger] queues(
                    outcomes[i],
                    ticket,
                ) implies events[i] is Request && self.issued <= ticket < after.issued by {
                if i < last {
                    assert(queues(seen[i], ticket));
                }
            }
            assert forall|i: int, ticket: u64|
                0 <= i < outcomes.len() && #[trigger] wakes(outcomes[i], ticket) implies ticket
                < after.issued && !after.is_pending(ticket) by {
                if i < last {
                    assert(wakes(seen[i], ticket));
                    if after.is_pending(ticket) {
                        assert(queues(outcome, ticket));
                    }
                }
            }
            assert forall|i: int, ticket: u64|
                0 <= i < outcomes.len() && #[trigger] withdraws(
                    events[i],
                    outcomes[i],
                    ticket,
                ) implies ticket < after.issued && !after.is_pending(ticket) by {
                if i < last {
                    assert(withdraws(earlier[i], seen[i], ticket));
                    if after.is_pending(ticket) {
                        assert(queues(outcome, ticket));
                    }
                }
            }
            assert forall|j: int, ticket: u64|
                0 <= j < outcomes.len() && #[trigger] wakes(outcomes[j], ticket) implies events[j]
                is Timer && (self.is_pending(ticket) || queued_before(outcomes, j, ticket)) by {
                if j < last {
                    assert(wakes(seen[j], ticket));
                } else {
                    assert(before.is_pending(ticket));
                }
            }
            assert forall|i: int, j: int, ticket: u64|
                0 <= i < j < outcomes.len() && #[trigger] wakes(outcomes[i], ticket) implies !(
            #[trigger] wakes(outcomes[j], ticket)) by {
                assert(wakes(seen[i], ticket));
                if j < last {
                    assert(!wakes(seen[j], ticket));
                }
            }
            assert forall|i: int, j: int, ticket: u64|
                0 <= i < j < outcomes.len() && #[trigger] withdraws(
                    events[i],
                    outcomes[i],
                    ticket,
                ) implies !(#[trigger] wakes(outcomes[j], ticket)) by {
                assert(withdraws(earlier[i], seen[i], ticket));
                if j < last {
                    assert(!wakes(seen[j], ticket));
                }
            }
            assert forall|i: int, j: int, ticket: u64|
                0 <= i < j < outcomes.len() && #[trigger] queues(outcomes[i], ticket) implies !(
            #[trigger] queues(outcomes[j], ticket)) by {
                assert(queues(seen[i], ticket));
                if j < last {
                    assert(!queues(seen[j], ticket));
                }
            }
        }
    }

    /// No waiting request is granted more than once, and every grant answers one
    /// request that was made before it.
    ///
    /// Of every run of events from a well-formed scheduler, short enough for the
    /// tickets to last:
    /// - a ticket is granted by a timer and by nothing else, and once at most;
    /// - a granted ticket waited at the start or was queued earlier in the run,
    ///   and it is queued once at most, by a request, under a ticket that did not
    ///   wait at the start;
    /// - a ticket that was withdrawn is not granted afterwards;
    /// - a grant on arrival is the answer to the request that arrived.
    pub proof fn lemma_every_grant_answers_one_request(self, events: Seq<Event>)
        requires
            self.wf(),
            self.issued + events.len() <= u64::MAX,
        ensures
            self.run(events).0.wf(),
            self.run(events).1.len() == events.len(),
            forall|i: int, j: int, ticket: u64|
                0 <= i < j < events.len() && #[trigger] wakes(self.run(events).1[i], ticket)
                    ==> !(#[trigger] wakes(self.run(events).1[j], ticket)),
            forall|j: int, ticket: u64|
                0 <= j < events.len() && #[trigger] wakes(self.run(events).1[j], ticket)
                    ==> events[j] is Timer && (self.is_pending(ticket) || queued_before(
                    self.run(events).1,
                    j,
                    ticket,
                )),
            forall|i: int, j: int, ticket: u64|
                0 <= i < j < events.len() && #[trigger] queues(self.run(events).1[i], ticket)
                    ==> !(#[trigger] queues(self.run(events).1[j], ticket)),
            forall|i: int, ticket: u64|
                0 <= i < events.len() && #[trigger] queues(self.run(events).1[i], ticket)
                    ==> events[i] is Request && !self.is_pending(ticket),
            forall|i: int, j: int, ticket: u64|
                0 <= i < j < events.len() && #[trigger] withdraws(
                    events[i],
                    self.run(events).1[i],
                    ticket,
                ) ==> !(#[trigger] wakes(self.run(events).1[j], ticket)),
            forall|i: int|
                0 <= i < events.len() && #[trigger] self.run(events).1[i] == Outcome::Admitted(
                    Ok(Admission::Granted),
                ) ==> events[i] is Request,
    {
        self.lemma_run_keeps_ledger(events);
        let outcomes = self.run(events).1;
        assert forall|i: int, ticket: u64|
            0 <= i < events.len() && #[trigger] queues(outcomes[i], ticket) implies events[i]
            is Request && !self.is_pending(ticket) by {
            if self.is_pending(ticket) {
                assert(self.pending[self.slot(ticket)].ticket < self.issued);
            }
        }
    }
}

/// Some answer before the `end`-th of `outcomes` puts a request into the queue
/// under `ticket`.
pub open spec fn queued_before(outcomes: Seq<Outcome>, end: int, ticket: u64) -> bool {
    exists|i: int| 0 <= i < end && i < outcomes.len() && #[trigger] queues(outcomes[i], ticket)
}

} // verus!
