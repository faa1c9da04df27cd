//! A bucket that reads the time for itself.

use crate::rate_limiter::bucket::{BucketState, BucketView, Unsatisfiable};
use crate::rate_limiter::clock::{Clock, SystemClock};
use vstd::prelude::*;

verus! {

/// A leaky bucket joined to the clock that drives it.
///
/// Every operation reads the clock once and hands the instant to the
/// [`BucketState`] inside. Which instant the clock gives is not known ahead of
/// the call; the contracts below say what holds for every one of them, and name
/// the instant through the bucket's `last_filled`: a refill at an instant that is
/// not later than `last_filled` changes nothing, so the bucket always ends as if
/// it had been handed the `last_filled` it ends with.
pub struct LeakyBucket<C: Clock> {
    state: BucketState,
    clock: C,
}

impl<C: Clock> View for LeakyBucket<C> {
    type V = BucketView;

    closed spec fn view(&self) -> BucketView {
        self.state@
    }
}

impl<C: Clock> LeakyBucket<C> {
    /// A bucket driven by `clock` that holds `min(initial_amount, capacity)`
    /// units at the instant the clock gives.
    pub fn new_with_clock(
        initial_amount: u64,
        capacity: u64,
        fill_rate: u64,
        fill_interval: u64,
        clock: C,
    ) -> (bucket: Self)
        requires
            fill_interval > 0,
        ensures
            bucket@.wf(),
            bucket@ == BucketView::started(
                initial_amount as nat,
                capacity as nat,
                fill_rate as nat,
                fill_interval as nat,
                bucket@.last_filled,
            ),
    {
        let now: u64 = clock.now();
        LeakyBucket {
            state: BucketState::new(initial_amount, capacity, fill_rate, fill_interval, now),
            clock,
        }
    }

    /// Refills up to the instant the clock gives, then removes `amount` units if
    /// the bucket holds them.
    pub fn take(&mut self, amount: u64) -> (taken: bool)
        ensures
            final(self)@.wf(),
            final(self)@.last_filled >= old(self)@.last_filled,
            (final(self)@, taken) == old(self)@.take(amount as nat, final(self)@.last_filled),
    {
        let now: u64 = self.clock.now();
        self.state.take(amount, now)
    }

    /// Refills up to the instant the clock gives, then says how long the bucket
    /// must fill undisturbed before a take of `amount` units succeeds.
    pub fn when(&mut self, amount: u64) -> (wait: Result<u128, Unsatisfiable>)
        ensures
            final(self)@.wf(),
            final(self)@.last_filled >= old(self)@.last_filled,
            final(self)@ == old(self)@.refill(final(self)@.last_filled),
            match wait {
                Ok(nanos) => final(self)@.wait(amount as nat) == Ok::<nat, Unsatisfiable>(
                    nanos as nat,
                ),
                Err(reason) => final(self)@.wait(amount as nat) == Err::<nat, Unsatisfiable>(
                    reason,
                ),
            },
    {
        let now: u64 = self.clock.now();
        self.state.when(amount, now)
    }

    /// The bucket as it stands.
    pub fn state(&self) -> (state: &BucketState)
        ensures
            state@ == self@,
            state@.wf(),
    {
        proof {
            use_type_invariant(&self.state);
        }
        &self.state
    }

    /// Parts the bucket from its clock.
    pub fn into_parts(self) -> (parts: (BucketState, C))
        ensures
            parts.0@ == self@,
            parts.0@.wf(),
    {
        proof {
            use_type_invariant(&self.state);
        }
        (self.state, self.clock)
    }
}

impl LeakyBucket<SystemClock> {
    /// A bucket driven by the wall clock that holds `min(initial_amount,
    /// capacity)` units now.
    pub fn new(initial_amount: u64, capacity: u64, fill_rate: u64, fill_interval: u64) -> (bucket:
        Self)
        requires
            fill_interval > 0,
        ensures
            bucket@.wf(),
            bucket@ == BucketView::started(
                initial_amount as nat,
                capacity as nat,
                fill_rate as nat,
                fill_interval as nat,
                bucket@.last_filled,
            ),
    {
        LeakyBucket::new_with_clock(
            initial_amount,
            capacity,
            fill_rate,
            fill_interval,
            SystemClock,
        )
    }
}

} // verus!
