//! The decisions of the limiter's scheduler.
//!
//! One task owns the bucket and arbitrates between callers. What that task waits
//! for lies outside this crate: a message from a caller, a timer, a caller that
//! gave up. What it decides when one of these happens is here, as a state machine
//! that is handed each event together with the instant at which it happened.
//!
//! Waiting requests are served first come, first served: only the oldest can be
//! woken, and it is woken only if a take of its amount succeeds at that instant.
//! A request that arrives while others wait is still tried at once, as every new
//! request is, and joins the back of the queue if the bucket cannot serve it.

use crate::rate_limiter::bucket::{BucketState, BucketView, Unsatisfiable};
use vstd::prelude::*;

verus! {

/// A request that could not be granted on arrival and waits for quota.
///
/// The ticket stands for the signal on which the caller waits: whoever runs the
/// scheduler keeps each signal under its ticket, and fires it when the ticket is
/// granted.
#[derive(Clone, Copy, Debug, PartialEq, Eq, Structural)]
pub struct PendingRequest {
    /// The number under which the request was queued. Tickets are handed out in
    /// rising order, so a smaller ticket means an older request.
    pub ticket: u64,
    /// The units of quota asked for.
    pub amount: u64,
}

/// What became of a request on arrival.
#[derive(Clone, Copy, Debug, PartialEq, Eq, Structural)]
pub enum Admission {
    /// The quota was there and has been taken.
    Granted,
    /// The request waits under the given ticket.
    Queued { ticket: u64 },
}

/// The mathematical value of a scheduler.
pub struct SchedulerView {
    /// The bucket that the scheduler owns.
    pub bucket: BucketView,
    /// The waiting requests, oldest first.
    pub pending: Seq<PendingRequest>,
    /// The number of tickets handed out so far, which is also the next ticket.
    pub issued: nat,
}

impl SchedulerView {
    /// Whether a request waits under `ticket`.
    pub open spec fn is_pending(self, ticket: u64) -> bool {
        exists|i: int| 0 <= i < self.pending.len() && (#[trigger] self.pending[i]).ticket == ticket
    }

    /// The place in the queue of the request that waits under `ticket`.
    pub open spec fn slot(self, ticket: u64) -> int {
        choose|i: int| 0 <= i < self.pending.len() && (#[trigger] self.pending[i]).ticket == ticket
    }

    /// The bucket is well formed; tickets rise along the queue and lie below
    /// `issued`; every waiting request asks for a positive amount within the
    /// capacity; and nothing waits on a bucket that never refills.
    pub open spec fn wf(self) -> bool {
        &&& self.bucket.wf()
        &&& self.issued <= u64::MAX
        &&& forall|i: int, j: int|
            0 <= i < j < self.pending.len() ==> (#[trigger] self.pending[i]).ticket < (
            #[trigger] self.pending[j]).ticket
        &&& forall|i: int|
            0 <= i < self.pending.len() ==> {
                &&& (#[trigger] self.pending[i]).ticket < self.issued
                &&& 0 < self.pending[i].amount <= self.bucket.capacity
            }
        &&& self.pending.len() > 0 ==> self.bucket.fill_rate > 0
    }

    /// A scheduler with nothing waiting and no ticket handed out.
    pub open spec fn idle(bucket: BucketView) -> SchedulerView {
        SchedulerView { bucket, pending: Seq::empty(), issued: 0 }
    }

    /// A request for `amount` units arrives at `now`. One that exceeds the
    /// capacity is turned away before the bucket is touched. Any other is tried
    /// at once; if the take fails it is turned away where the bucket never
    /// refills, and queued under the next ticket otherwise.
    pub open spec fn request(self, amount: u64, now: u64) -> (
        SchedulerView,
        Result<Admission, Unsatisfiable>,
    ) {
        if amount > self.bucket.capacity {
            (self, Err(Unsatisfiable::ExceedsCapacity))
        } else {
            let (bucket, taken) = self.bucket.take(amount as nat, now as nat);
            if taken {
                (SchedulerView { bucket, ..self }, Ok(Admission::Granted))
            } else if self.bucket.fill_rate == 0 {
                (SchedulerView { bucket, ..self }, Err(Unsatisfiable::NeverRefills))
            } else {
                let ticket = self.issued as u64;
                (
                    SchedulerView {
                        bucket,
                        pending: self.pending.push(PendingRequest { ticket, amount }),
                        issued: self.issued + 1,
                    },
                    Ok(Admission::Queued { ticket }),
                )
            }
        }
    }

    /// The timer fires at `now`. The oldest waiting request is granted if a take
    /// of its amount succeeds at that instant, and leaves the queue with its
    /// ticket; otherwise everything but the refilled bucket stays as it was.
    pub open spec fn wake(self, now: u64) -> (SchedulerView, Option<u64>) {
        if self.pending.len() == 0 {
            (self, None)
        } else {
            let head = self.pending[0];
            let (bucket, taken) = self.bucket.take(head.amount as nat, now as nat);
            if taken {
                (
                    SchedulerView { bucket, pending: self.pending.remove(0), ..self },
                    Some(head.ticket),
                )
            } else {
                (SchedulerView { bucket, ..self }, None)
            }
        }
    }

    /// The caller behind `ticket` gave up. Its request leaves the queue without a
    /// grant and without touching the bucket; the amount it had asked for is
    /// handed back. A ticket under which nothing waits changes nothing.
    pub open spec fn withdraw(self, ticket: u64) -> (SchedulerView, Option<u64>) {
        if self.is_pending(ticket) {
            let slot = self.slot(ticket);
            (
                SchedulerView { pending: self.pending.remove(slot), ..self },
                Some(self.pending[slot].amount),
            )
        } else {
            (self, None)
        }
    }

    /// How long from `now` until the oldest waiting request can be served if the
    /// bucket is left alone meanwhile, or nothing where no request waits.
    pub open spec fn next_wake(self, now: u64) -> (SchedulerView, Option<nat>) {
        if self.pending.len() == 0 {
            (self, None)
        } else {
            let wait = self.bucket.when(self.pending[0].amount as nat, now as nat);
            (SchedulerView { bucket: self.bucket.refill(now as nat), ..self }, Some(wait->Ok_0))
        }
    }
}

impl SchedulerView {
    /// Tickets rise along the queue, so a ticket is held by one place at most.
    pub proof fn lemma_slot_is_unique(self, ticket: u64, place: int)
        requires
            self.wf(),
            0 <= place < self.pending.len(),
            self.pending[place].ticket == ticket,
        ensures
            self.is_pending(ticket),
            self.slot(ticket) == place,
    {
        let slot = self.slot(ticket);
        if slot < place {
            assert(self.pending[slot].ticket < self.pending[place].ticket);
        } else if place < slot {
            assert(self.pending[place].ticket < self.pending[slot].ticket);
        }
    }

    /// A request keeps the scheduler well formed as long as a ticket is left to
    /// hand out.
    pub proof fn lemma_request_preserves_wf(self, amount: u64, now: u64)
        requires
            self.wf(),
            self.issued < u64::MAX,
        ensures
            self.request(amount, now).0.wf(),
    {
        let next = self.request(amount, now).0;
        self.bucket.lemma_steps_preserve_wf(amount as nat, now as nat);
        if amount <= self.bucket.capacity && !self.bucket.take(amount as nat, now as nat).1
            && self.bucket.fill_rate > 0 {
            if amount == 0 {
                let interval = self.bucket.refill(now as nat).fill_interval;
                assert(0 * interval == 0) by (nonlinear_arith);
                assert(self.bucket.refill(now as nat).holds(0));
            }
            assert forall|i: int, j: int| 0 <= i < j < next.pending.len() implies (
            #[trigger] next.pending[i]).ticket < (#[trigger] next.pending[j]).ticket by {
                if j < self.pending.len() {
                    assert(self.pending[i].ticket < self.pending[j].ticket);
                } else {
                    assert(self.pending[i].ticket < self.issued);
                }
            }
            assert forall|i: int| 0 <= i < next.pending.len() implies {
                &&& (#[trigger] next.pending[i]).ticket < next.issued
                &&& 0 < next.pending[i].amount <= next.bucket.capacity
            } by {
                if i < self.pending.len() {
                    assert(self.pending[i].ticket < self.issued);
                }
            }
        } else {
            assert(next.pending == self.pending);
        }
    }

    /// A timer keeps the scheduler well formed.
    pub proof fn lemma_wake_preserves_wf(self, now: u64)
        requires
            self.wf(),
        ensures
            self.wake(now).0.wf(),
    {
        if self.pending.len() > 0 {
            self.bucket.lemma_steps_preserve_wf(self.pending[0].amount as nat, now as nat);
            self.lemma_removal_preserves_wf(
                0,
                self.bucket.take(self.pending[0].amount as nat, now as nat).0,
            );
        }
    }

    /// A withdrawal keeps the scheduler well formed.
    pub proof fn lemma_withdraw_preserves_wf(self, ticket: u64)
        requires
            self.wf(),
        ensures
            self.withdraw(ticket).0.wf(),
    {
        if self.is_pending(ticket) {
            self.lemma_removal_preserves_wf(self.slot(ticket), self.bucket);
        }
    }

    /// Looking up the next wake keeps the scheduler well formed, and always finds
    /// a wait where a request waits.
    pub proof fn lemma_next_wake_preserves_wf(self, now: u64)
        requires
            self.wf(),
        ensures
            self.next_wake(now).0.wf(),
            self.pending.len() > 0 ==> self.bucket.when(
                self.pending[0].amount as nat,
                now as nat,
            ) is Ok,
    {
        self.bucket.lemma_steps_preserve_wf(0, now as nat);
        if self.pending.len() > 0 {
            assert(self.pending[0].amount <= self.bucket.capacity);
        }
    }

    /// The timer set by `next_wake` is the right one: where the clock has not run
    /// backwards and the scheduler is left alone meanwhile, a wake grants the
    /// oldest waiting request from the end of that wait on, and nothing before.
    /// Looking up the wait does not change what a later wake does.
    pub proof fn lemma_wake_grants_once_waited(self, now: u64, later: u64)
        requires
            self.wf(),
            self.pending.len() > 0,
            self.bucket.last_filled <= now <= later,
        ensures
            self.next_wake(now).1 is Some,
            self.wake(later).1 is Some <==> later - now >= self.next_wake(now).1->Some_0,
            self.wake(later).1 is Some ==> self.wake(later).1 == Some(self.pending[0].ticket),
            self.next_wake(now).0.wake(later) == self.wake(later),
    {
        let amount = self.pending[0].amount as nat;
        self.lemma_next_wake_preserves_wf(now);
        self.bucket.lemma_take_succeeds_once_waited(amount, now as nat, later as nat);
        self.bucket.lemma_refill_composes(now as nat, later as nat);
    }

    /// Taking a request out of the queue leaves the others in their order,
    /// whatever became of the bucket's level meanwhile.
    pub(crate) proof fn lemma_removal_preserves_wf(self, place: int, bucket: BucketView)
        requires
            self.wf(),
            0 <= place < self.pending.len(),
            bucket.wf(),
            bucket.capacity == self.bucket.capacity,
            bucket.fill_rate == self.bucket.fill_rate,
        ensures
            (SchedulerView { bucket, pending: self.pending.remove(place), ..self }).wf(),
    {
        let rest = self.pending.remove(place);
        assert forall|i: int, j: int| 0 <= i < j < rest.len() implies (#[trigger] rest[i]).ticket
            < (#[trigger] rest[j]).ticket by {
            let from_i = if i < place {
                i
            } else {
                i + 1
            };
            let from_j = if j < place {
                j
            } else {
                j + 1
            };
            assert(self.pending[from_i].ticket < self.pending[from_j].ticket);
        }
        assert forall|i: int| 0 <= i < rest.len() implies {
            &&& (#[trigger] rest[i]).ticket < self.issued
            &&& 0 < rest[i].amount <= self.bucket.capacity
        } by {
            let from_i = if i < place {
                i
            } else {
                i + 1
            };
            assert(self.pending[from_i].ticket < self.issued);
        }
    }
}

/// The scheduler of one limiter: the bucket and the queue of requests that wait for
/// it to fill.
#[derive(Debug)]
pub struct Scheduler {
    bucket: BucketState,
    pending: Vec<PendingRequest>,
    issued: u64,
}

impl View for Scheduler {
    type V = SchedulerView;

    closed spec fn view(&self) -> SchedulerView {
        SchedulerView { bucket: self.bucket@, pending: self.pending@, issued: self.issued as nat }
    }
}

impl Scheduler {
    /// The invariant of a scheduler: its value is well formed.
    pub open spec fn wf(&self) -> bool {
        self@.wf()
    }

    /// A scheduler that owns `bucket` and has nothing waiting.
    pub fn new(bucket: BucketState) -> (scheduler: Scheduler)
        ensures
            scheduler.wf(),
            scheduler@ == SchedulerView::idle(bucket@),
    {
        proof {
            use_type_invariant(&bucket);
        }
        Scheduler { bucket, pending: Vec::new(), issued: 0 }
    }

    /// Decides on a request for `amount` units that arrives at `now`: granted at
    /// once, queued under a fresh ticket, or turned away because no wait could
    /// satisfy it.
    pub fn request(&mut self, amount: u64, now: u64) -> (admission: Result<
        Admission,
        Unsatisfiable,
    >)
        requires
            old(self).wf(),
            old(self)@.issued < u64::MAX,
        ensures
            final(self).wf(),
            (final(self)@, admission) == old(self)@.request(amount, now),
    {
        proof {
            self@.lemma_request_preserves_wf(amount, now);
        }
        if amount > self.bucket.capacity() {
            return Err(Unsatisfiable::ExceedsCapacity);
        }
        let taken: bool = self.bucket.take(amount, now);
        if taken {
            Ok(Admission::Granted)
        } else if self.bucket.fill_rate() == 0 {
            Err(Unsatisfiable::NeverRefills)
        } else {
            let ticket: u64 = self.issued;
            self.pending.push(PendingRequest { ticket, amount });
            self.issued = self.issued + 1;
            Ok(Admission::Queued { ticket })
        }
    }

    /// Decides on a timer that fires at `now`: the ticket of the oldest waiting
    /// request if a take of its amount succeeds, nothing otherwise.
    pub fn wake(&mut self, now: u64) -> (granted: Option<u64>)
        requires
            old(self).wf(),
        ensures
            final(self).wf(),
            (final(self)@, granted) == old(self)@.wake(now),
    {
        proof {
            self@.lemma_wake_preserves_wf(now);
        }
        if self.pending.len() == 0 {
            return None;
        }
        let head: PendingRequest = self.pending[0];
        let taken: bool = self.bucket.take(head.amount, now);
        if taken {
            self.pending.remove(0);
            Some(head.ticket)
        } else {
            None
        }
    }

    /// Drops the request that waits under `ticket` without granting it, and hands
    /// back the amount it had asked for.
    pub fn withdraw(&mut self, ticket: u64) -> (amount: Option<u64>)
        requires
            old(self).wf(),
        ensures
            final(self).wf(),
            (final(self)@, amount) == old(self)@.withdraw(ticket),
    {
        proof {
            self@.lemma_withdraw_preserves_wf(ticket);
        }
        let mut i: usize = 0;
        while i < self.pending.len()
            invariant
                self.wf(),
                *self == *old(self),
                i <= self.pending.len(),
                forall|j: int| 0 <= j < i ==> (#[trigger] self.pending@[j]).ticket != ticket,
            decreases self.pending.len() - i,
        {
            if self.pending[i].ticket == ticket {
                proof {
                    self@.lemma_slot_is_unique(ticket, i as int);
                }
                let request: PendingRequest = self.pending.remove(i);
                return Some(request.amount);
            }
            i = i + 1;
        }
        None
    }

    /// How long from `now` until the oldest waiting request can be served, in
    /// nanoseconds, or nothing where no request waits. The bucket is refilled up
    /// to `now` on the way.
    pub fn next_wake(&mut self, now: u64) -> (wait: Option<u128>)
        requires
            old(self).wf(),
        ensures
            final(self).wf(),
            final(self)@ == old(self)@.next_wake(now).0,
            match wait {
                Some(nanos) => old(self)@.next_wake(now).1 == Some(nanos as nat),
                None => old(self)@.next_wake(now).1 is None,
            },
            wait is None <==> old(self)@.pending.len() == 0,
    {
        proof {
            self@.lemma_next_wake_preserves_wf(now);
        }
        if self.pending.len() == 0 {
            return None;
        }
        let head: PendingRequest = self.pending[0];
        match self.bucket.when(head.amount, now) {
            Ok(nanos) => Some(nanos),
            Err(_) => None,
        }
    }

    /// The number of requests that wait.
    pub fn pending_len(&self) -> (len: usize)
        ensures
            len == self@.pending.len(),
    {
        self.pending.len()
    }

    /// The waiting requests, oldest first.
    pub fn pending(&self) -> (pending: &Vec<PendingRequest>)
        ensures
            pending@ == self@.pending,
    {
        &self.pending
    }

    /// The number of tickets handed out so far.
    pub fn issued(&self) -> (issued: u64)
        ensures
            issued == self@.issued,
    {
        self.issued
    }

    /// The bucket as it stands.
    pub fn bucket(&self) -> (bucket: &BucketState)
        ensures
            bucket@ == self@.bucket,
    {
        &self.bucket
    }
}

} // verus!
