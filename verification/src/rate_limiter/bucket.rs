//! The leaky bucket itself: a finite quota that refills continuously and is
//! drained by discrete takes.
//!
//! Quota is counted in whole units, time in nanoseconds. Between two instants the
//! bucket gains `fill_rate` units per `fill_interval` nanoseconds, which is rarely
//! a whole number of units. To keep the fill level exact, the bucket holds it
//! multiplied by `fill_interval`: a `level` of `n` stands for `n / fill_interval`
//! units. In that scale one nanosecond adds exactly `fill_rate`, and a unit of
//! quota costs exactly `fill_interval`, so no operation ever rounds.

use vstd::prelude::*;

verus! {

/// Why no amount of waiting will let a request through.
#[derive(Clone, Copy, Debug, PartialEq, Eq, Structural)]
pub enum Unsatisfiable {
    /// The request asks for more than the bucket can ever hold.
    ExceedsCapacity,
    /// The bucket holds too little and its fill rate is zero.
    NeverRefills,
}

/// The mathematical value of a bucket.
pub struct BucketView {
    /// Quota available, in units multiplied by `fill_interval`.
    pub level: nat,
    /// The most quota the bucket can hold, in units.
    pub capacity: nat,
    /// Units gained per `fill_interval`.
    pub fill_rate: nat,
    /// The span over which `fill_rate` units accrue, in nanoseconds.
    pub fill_interval: nat,
    /// The instant up to which accrued quota has been credited.
    pub last_filled: nat,
}

/// The lesser of `a` and `b`.
pub open spec fn min_nat(a: nat, b: nat) -> nat {
    if a <= b {
        a
    } else {
        b
    }
}

/// The quotient of `a` by `b`, rounded up.
pub open spec fn ceil_div(a: nat, b: nat) -> nat
    recommends
        b > 0,
{
    if a % b == 0 {
        a / b
    } else {
        a / b + 1
    }
}

impl BucketView {
    /// The level of a full bucket.
    pub open spec fn brim(self) -> nat {
        self.capacity * self.fill_interval
    }

    /// What `amount` units cost on the scale of `level`.
    pub open spec fn price(self, amount: nat) -> nat {
        amount * self.fill_interval
    }

    /// The interval is positive and the bucket is not filled past its capacity.
    pub open spec fn wf(self) -> bool {
        &&& self.fill_interval > 0
        &&& self.level <= self.brim()
    }

    /// A bucket that holds `min(initial_amount, capacity)` units at `now`.
    pub open spec fn started(
        initial_amount: nat,
        capacity: nat,
        fill_rate: nat,
        fill_interval: nat,
        now: nat,
    ) -> BucketView {
        BucketView {
            level: min_nat(initial_amount, capacity) * fill_interval,
            capacity,
            fill_rate,
            fill_interval,
            last_filled: now,
        }
    }

    /// The bucket after crediting what accrued up to `now`. A `now` that is not
    /// later than `last_filled` changes nothing.
    pub open spec fn refill(self, now: nat) -> BucketView {
        if now <= self.last_filled {
            self
        } else {
            BucketView {
                level: min_nat(
                    self.level + self.fill_rate * (now - self.last_filled) as nat,
                    self.brim(),
                ),
                last_filled: now,
                ..self
            }
        }
    }

    /// Whether the bucket, as it stands, holds `amount` units.
    pub open spec fn holds(self, amount: nat) -> bool {
        self.price(amount) <= self.level
    }

    /// The bucket with `amount` units removed.
    pub open spec fn drained(self, amount: nat) -> BucketView {
        BucketView { level: (self.level - self.price(amount)) as nat, ..self }
    }

    /// The bucket after an attempt at `now` to take `amount` units, and whether
    /// the attempt succeeded.
    pub open spec fn take(self, amount: nat, now: nat) -> (BucketView, bool) {
        let filled = self.refill(now);
        if filled.holds(amount) {
            (filled.drained(amount), true)
        } else {
            (filled, false)
        }
    }

    /// How long the bucket, as it stands, must fill undisturbed before it holds
    /// `amount` units: the least whole number of nanoseconds, zero if it holds
    /// them already.
    pub open spec fn wait(self, amount: nat) -> Result<nat, Unsatisfiable> {
        if self.holds(amount) {
            Ok(0)
        } else if amount > self.capacity {
            Err(Unsatisfiable::ExceedsCapacity)
        } else if self.fill_rate == 0 {
            Err(Unsatisfiable::NeverRefills)
        } else {
            Ok(ceil_div((self.price(amount) - self.level) as nat, self.fill_rate))
        }
    }

    /// The wait for `amount` units as seen at `now`, after crediting what accrued
    /// up to then.
    pub open spec fn when(self, amount: nat, now: nat) -> Result<nat, Unsatisfiable> {
        self.refill(now).wait(amount)
    }

    /// The whole units of quota in the bucket as it stands.
    pub open spec fn filled(self) -> nat {
        self.level / self.fill_interval
    }
}

impl BucketView {
    /// Refilling and taking keep a bucket well formed, and change nothing but its
    /// level and the instant of its last refill.
    pub proof fn lemma_steps_preserve_wf(self, amount: nat, now: nat)
        requires
            self.wf(),
        ensures
            self.refill(now).wf(),
            self.take(amount, now).0.wf(),
            self.refill(now).last_filled >= self.last_filled,
            self.refill(now).last_filled >= now,
            self.refill(now).level >= self.level,
    {
    }

    /// A bucket started empty and left alone for `elapsed` nanoseconds holds
    /// `min(fill_rate * elapsed / fill_interval, capacity)` units. On the scale of
    /// `level`, which is units multiplied by `fill_interval`, that is
    /// `min(fill_rate * elapsed, capacity * fill_interval)`, with nothing rounded.
    pub proof fn lemma_fill_from_empty(
        capacity: nat,
        fill_rate: nat,
        fill_interval: nat,
        start: nat,
        elapsed: nat,
    )
        requires
            fill_interval > 0,
        ensures
            BucketView::started(0, capacity, fill_rate, fill_interval, start).refill(
                start + elapsed,
            ).level == min_nat(fill_rate * elapsed, capacity * fill_interval),
            BucketView::started(0, capacity, fill_rate, fill_interval, start).refill(
                start + elapsed,
            ).filled() == min_nat((fill_rate * elapsed) / fill_interval, capacity),
    {
        assert(0 * fill_interval == 0);
        if elapsed == 0 {
            assert(fill_rate * 0 == 0);
        }
        lemma_whole_units(fill_rate * elapsed, capacity, fill_interval);
    }

    /// A well-formed bucket is never filled past its capacity, before or after a
    /// refill or a take.
    pub proof fn lemma_filled_within_capacity(self, amount: nat, now: nat)
        requires
            self.wf(),
        ensures
            self.filled() <= self.capacity,
            self.refill(now).filled() <= self.capacity,
            self.take(amount, now).0.filled() <= self.capacity,
    {
        self.lemma_steps_preserve_wf(amount, now);
        lemma_whole_units(self.level, self.capacity, self.fill_interval);
        lemma_whole_units(self.refill(now).level, self.capacity, self.fill_interval);
        lemma_whole_units(self.take(amount, now).0.level, self.capacity, self.fill_interval);
    }

    /// A bucket holds an amount exactly when the amount is no more than the whole
    /// units in it.
    pub proof fn lemma_holds_iff_filled(self, amount: nat)
        requires
            self.wf(),
        ensures
            self.holds(amount) <==> amount <= self.filled(),
    {
        let level = self.level as int;
        let interval = self.fill_interval as int;
        let units = amount as int;
        assert(units * interval <= level <==> units <= level / interval) by (nonlinear_arith)
            requires
                interval > 0,
                level >= 0,
                units >= 0,
        ;
    }

    /// How often a bucket is sampled does not matter: refilling at `earlier` and
    /// then at `later` leaves the bucket that a single refill at `later` leaves.
    pub proof fn lemma_refill_composes(self, earlier: nat, later: nat)
        requires
            self.wf(),
            earlier <= later,
        ensures
            self.refill(earlier).refill(later) == self.refill(later),
    {
        if self.last_filled < earlier && earlier < later {
            let first = (earlier - self.last_filled) as nat;
            let second = (later - earlier) as nat;
            let rate = self.fill_rate;
            assert(rate * first + rate * second == rate * (first + second))
                by (nonlinear_arith);
            assert(rate * second >= 0) by (nonlinear_arith);
        }
    }

    /// Refilling twice at the same instant is refilling once.
    pub proof fn lemma_refill_idempotent(self, now: nat)
        ensures
            self.refill(now).refill(now) == self.refill(now),
    {
    }

    /// A take succeeds exactly when the refilled bucket holds the amount. It then
    /// lowers the fill level by exactly that amount, and otherwise leaves the
    /// refilled bucket untouched.
    pub proof fn lemma_take_is_exact(self, amount: nat, now: nat)
        requires
            self.wf(),
        ensures
            self.take(amount, now).1 <==> amount <= self.refill(now).filled(),
            self.take(amount, now).1 <==> self.price(amount) <= self.refill(now).level,
            self.take(amount, now).1 ==> self.take(amount, now).0.level == self.refill(now).level
                - amount * self.fill_interval,
            !self.take(amount, now).1 ==> self.take(amount, now).0 == self.refill(now),
    {
        self.refill(now).lemma_holds_iff_filled(amount);
    }

    /// The wait is zero exactly when a take would succeed now.
    pub proof fn lemma_when_zero_iff_take_succeeds(self, amount: nat, now: nat)
        requires
            self.wf(),
        ensures
            self.when(amount, now) == Ok::<nat, Unsatisfiable>(0) <==> self.take(amount, now).1,
    {
        let filled = self.refill(now);
        if !filled.holds(amount) && amount <= self.capacity && self.fill_rate > 0 {
            let deficit = (filled.price(amount) - filled.level) as nat;
            lemma_ceil_div_is_least(deficit, self.fill_rate);
        }
    }

    /// A request is rejected exactly when no wait can satisfy it: it asks for more
    /// than the capacity, or the bucket holds too little and never refills.
    pub proof fn lemma_when_rejects_iff_hopeless(self, amount: nat, now: nat)
        requires
            self.wf(),
        ensures
            self.when(amount, now) is Err <==> (amount > self.capacity || (self.fill_rate == 0
                && !self.refill(now).holds(amount))),
            self.when(amount, now) is Err ==> forall|later: nat|
                later >= now ==> !(#[trigger] self.take(amount, later)).1,
    {
        let filled = self.refill(now);
        if amount > self.capacity {
            lemma_product_strictly_monotonic(self.capacity, amount, self.fill_interval);
        }
        if self.when(amount, now) is Err {
            assert forall|later: nat| later >= now implies !(#[trigger] self.take(
                amount,
                later,
            )).1 by {
                self.lemma_refill_composes(now, later);
                if self.fill_rate == 0 {
                    assert(self.fill_rate * (later - filled.last_filled) == 0);
                }
            }
        }
    }

    /// Where the clock has not run backwards, the wait that `when` gives is
    /// enough, and nothing less is: left undisturbed, a take of the amount
    /// succeeds at `now + wait`, and fails at every instant from `now` up to then.
    pub proof fn lemma_when_is_least_sufficient_wait(self, amount: nat, now: nat, wait: nat)
        requires
            self.wf(),
            now >= self.last_filled,
            self.when(amount, now) == Ok::<nat, Unsatisfiable>(wait),
        ensures
            self.take(amount, now + wait).1,
            forall|sooner: nat| sooner < wait ==> !(#[trigger] self.take(amount, now + sooner)).1,
    {
        let filled = self.refill(now);
        let price = self.price(amount);
        self.lemma_refill_composes(now, now + wait);
        if filled.holds(amount) {
            assert(wait == 0);
        } else {
            let deficit = (price - filled.level) as nat;
            let rate = self.fill_rate;
            lemma_ceil_div_is_least(deficit, rate);
            lemma_product_monotonic(amount, self.capacity, self.fill_interval);
            assert(filled.last_filled == now);
            assert(filled.refill(now + wait).level >= price);
            assert forall|sooner: nat| sooner < wait implies !(#[trigger] self.take(
                amount,
                now + sooner,
            )).1 by {
                self.lemma_refill_composes(now, now + sooner);
                assert(rate * sooner <= rate * (wait - 1)) by (nonlinear_arith)
                    requires
                        sooner <= wait - 1,
                        rate >= 0,
                ;
                if sooner > 0 {
                    assert(filled.refill(now + sooner).level < price);
                }
            }
        }
    }

    /// Where the clock has not run backwards, a take that is left to itself
    /// succeeds from the end of the wait on, and not before.
    pub proof fn lemma_take_succeeds_once_waited(self, amount: nat, now: nat, later: nat)
        requires
            self.wf(),
            self.last_filled <= now <= later,
            self.when(amount, now) is Ok,
        ensures
            self.take(amount, later).1 <==> later - now >= self.when(amount, now)->Ok_0,
    {
        let wait = self.when(amount, now)->Ok_0;
        self.lemma_when_is_least_sufficient_wait(amount, now, wait);
        if later - now >= wait {
            self.lemma_refill_composes(now + wait, later);
            self.refill(now + wait).lemma_steps_preserve_wf(amount, later);
            self.lemma_steps_preserve_wf(amount, now + wait);
        } else {
            let sooner = (later - now) as nat;
            assert(!self.take(amount, now + sooner).1);
        }
    }
}

/// Rounding a quotient up gives the least multiplier that reaches the dividend.
pub proof fn lemma_ceil_div_is_least(a: nat, b: nat)
    requires
        b > 0,
    ensures
        b * ceil_div(a, b) >= a,
        a > 0 ==> ceil_div(a, b) > 0 && b * (ceil_div(a, b) - 1) < a,
        a == 0 ==> ceil_div(a, b) == 0,
{
    let q = a / b;
    let r = a % b;
    assert(a == b * q + r && 0 <= r < b) by (nonlinear_arith)
        requires
            b > 0,
            q == a / b,
            r == a % b,
    ;
    if r == 0 {
        assert(b * (q - 1) == b * q - b) by (nonlinear_arith);
        if a > 0 {
            assert(q > 0) by (nonlinear_arith)
                requires
                    a == b * q,
                    a > 0,
                    b > 0,
            ;
        }
    } else {
        assert(b * (q + 1) == b * q + b) by (nonlinear_arith);
        assert((q + 1) - 1 == q);
    }
    if a == 0 {
        assert(q == 0) by (nonlinear_arith)
            requires
                0 == b * q + r,
                0 <= r,
                b > 0,
                q >= 0,
        ;
    }
}

/// The whole units in a level that is capped at a brim are the whole units in the
/// level, capped at the capacity.
proof fn lemma_whole_units(level: nat, capacity: nat, interval: nat)
    requires
        interval > 0,
    ensures
        min_nat(level, capacity * interval) / interval == min_nat(level / interval, capacity),
{
    let l = level as int;
    let c = capacity as int;
    let i = interval as int;
    assert((c * i) / i == c) by (nonlinear_arith)
        requires
            i > 0,
    ;
    if l <= c * i {
        assert(l / i <= c) by (nonlinear_arith)
            requires
                0 <= l <= c * i,
                i > 0,
        ;
    } else {
        assert(l / i >= c) by (nonlinear_arith)
            requires
                l > c * i,
                i > 0,
                c >= 0,
        ;
    }
}

proof fn lemma_product_strictly_monotonic(a: nat, b: nat, c: nat)
    requires
        a < b,
        c > 0,
    ensures
        a * c < b * c,
{
    assert(a * c < b * c) by (nonlinear_arith)
        requires
            a < b,
            c > 0,
    ;
}

/// A leaky bucket as a pure state machine: every operation is handed the current
/// instant and depends on nothing else.
#[derive(Debug)]
pub struct BucketState {
    level: u128,
    capacity: u64,
    fill_rate: u64,
    fill_interval: u64,
    last_filled: u64,
}

impl View for BucketState {
    type V = BucketView;

    closed spec fn view(&self) -> BucketView {
        BucketView {
            level: self.level as nat,
            capacity: self.capacity as nat,
            fill_rate: self.fill_rate as nat,
            fill_interval: self.fill_interval as nat,
            last_filled: self.last_filled as nat,
        }
    }
}

proof fn lemma_product_fits(a: u64, b: u64)
    ensures
        a * b <= u128::MAX,
{
    assert(a * b <= 0xffff_ffff_ffff_ffff * 0xffff_ffff_ffff_ffff) by (nonlinear_arith)
        requires
            0 <= a <= 0xffff_ffff_ffff_ffff,
            0 <= b <= 0xffff_ffff_ffff_ffff,
    ;
}

proof fn lemma_product_monotonic(a: nat, b: nat, c: nat)
    requires
        a <= b,
    ensures
        a * c <= b * c,
{
    assert(a * c <= b * c) by (nonlinear_arith)
        requires
            a <= b,
    ;
}

impl BucketState {
    /// The invariant that every bucket meets: its value is well formed.
    #[verifier::type_invariant]
    pub open spec fn wf(&self) -> bool {
        self@.wf()
    }

    /// A bucket of the given capacity and fill rate that holds
    /// `min(initial_amount, capacity)` units at `now`.
    pub fn new(
        initial_amount: u64,
        capacity: u64,
        fill_rate: u64,
        fill_interval: u64,
        now: u64,
    ) -> (bucket: BucketState)
        requires
            fill_interval > 0,
        ensures
            bucket@.wf(),
            bucket@ == BucketView::started(
                initial_amount as nat,
                capacity as nat,
                fill_rate as nat,
                fill_interval as nat,
                now as nat,
            ),
    {
        let initial: u64 = if initial_amount <= capacity {
            initial_amount
        } else {
            capacity
        };
        proof {
            lemma_product_fits(initial, fill_interval);
            lemma_product_monotonic(initial as nat, capacity as nat, fill_interval as nat);
        }
        BucketState {
            level: (initial as u128) * (fill_interval as u128),
            capacity,
            fill_rate,
            fill_interval,
            last_filled: now,
        }
    }

    /// Credits the quota that accrued since the last refill. A clock that stood
    /// still or ran backwards credits nothing.
    pub fn refill(&mut self, now: u64)
        ensures
            final(self)@.wf(),
            final(self)@ == old(self)@.refill(now as nat),
    {
        proof {
            use_type_invariant(&*self);
        }
        if now > self.last_filled {
            let elapsed: u64 = now - self.last_filled;
            proof {
                lemma_product_fits(self.fill_rate, elapsed);
                lemma_product_fits(self.capacity, self.fill_interval);
            }
            let gain: u128 = (self.fill_rate as u128) * (elapsed as u128);
            let brim: u128 = (self.capacity as u128) * (self.fill_interval as u128);
            let room: u128 = brim - self.level;
            if gain >= room {
                self.level = brim;
            } else {
                self.level = self.level + gain;
            }
            self.last_filled = now;
        }
    }

    /// Refills, then removes `amount` units if the bucket holds them. A failed
    /// take leaves the refilled bucket as it is.
    pub fn take(&mut self, amount: u64, now: u64) -> (taken: bool)
        ensures
            final(self)@.wf(),
            (final(self)@, taken) == old(self)@.take(amount as nat, now as nat),
            taken <==> old(self)@.refill(now as nat).holds(amount as nat),
            taken ==> final(self)@.level + final(self)@.price(amount as nat) == old(self)@.refill(
                now as nat,
            ).level,
            !taken ==> final(self)@ == old(self)@.refill(now as nat),
    {
        self.refill(now);
        proof {
            use_type_invariant(&*self);
            lemma_product_fits(amount, self.fill_interval);
        }
        let price: u128 = (amount as u128) * (self.fill_interval as u128);
        if price <= self.level {
            self.level = self.level - price;
            true
        } else {
            false
        }
    }

    /// Refills, then says how long the bucket must fill undisturbed before a take
    /// of `amount` units succeeds: zero if it would succeed now, else the least
    /// whole number of nanoseconds. A request that no wait can satisfy is
    /// rejected.
    pub fn when(&mut self, amount: u64, now: u64) -> (wait: Result<u128, Unsatisfiable>)
        ensures
            final(self)@.wf(),
            final(self)@ == old(self)@.refill(now as nat),
            match wait {
                Ok(nanos) => old(self)@.when(amount as nat, now as nat) == Ok::<nat, Unsatisfiable>(
                    nanos as nat,
                ),
                Err(reason) => old(self)@.when(amount as nat, now as nat) == Err::<
                    nat,
                    Unsatisfiable,
                >(reason),
            },
    {
        self.refill(now);
        proof {
            use_type_invariant(&*self);
            lemma_product_fits(amount, self.fill_interval);
            lemma_product_fits(self.capacity, self.fill_interval);
        }
        let price: u128 = (amount as u128) * (self.fill_interval as u128);
        if price <= self.level {
            Ok(0)
        } else if amount > self.capacity {
            Err(Unsatisfiable::ExceedsCapacity)
        } else if self.fill_rate == 0 {
            Err(Unsatisfiable::NeverRefills)
        } else {
            let deficit: u128 = price - self.level;
            let rate: u128 = self.fill_rate as u128;
            let whole: u128 = deficit / rate;
            proof {
                lemma_product_monotonic(
                    amount as nat,
                    self.capacity as nat,
                    self.fill_interval as nat,
                );
                assert(whole <= deficit) by (nonlinear_arith)
                    requires
                        whole == deficit / rate,
                        rate > 0,
                ;
                assert(self.capacity * self.fill_interval < u128::MAX) by (nonlinear_arith)
                    requires
                        self.capacity <= 0xffff_ffff_ffff_ffff,
                        self.fill_interval <= 0xffff_ffff_ffff_ffff,
                ;
            }
            if deficit % rate == 0 {
                Ok(whole)
            } else {
                Ok(whole + 1)
            }
        }
    }

    /// The whole units of quota in the bucket as it stands, without refilling.
    pub fn filled(&self) -> (units: u64)
        ensures
            self@.wf(),
            units == self@.filled(),
            units <= self@.capacity,
    {
        proof {
            use_type_invariant(self);
            let level = self.level as int;
            let interval = self.fill_interval as int;
            let capacity = self.capacity as int;
            assert(level / interval <= capacity) by (nonlinear_arith)
                requires
                    0 <= level <= capacity * interval,
                    interval > 0,
            ;
        }
        (self.level / (self.fill_interval as u128)) as u64
    }

    /// The most quota the bucket can hold.
    pub fn capacity(&self) -> (units: u64)
        ensures
            units == self@.capacity,
    {
        self.capacity
    }

    /// The units gained per fill interval.
    pub fn fill_rate(&self) -> (units: u64)
        ensures
            units == self@.fill_rate,
    {
        self.fill_rate
    }

    /// The span over which the fill rate accrues, in nanoseconds.
    pub fn fill_interval(&self) -> (nanos: u64)
        ensures
            nanos == self@.fill_interval,
    {
        self.fill_interval
    }

    /// The instant up to which accrued quota has been credited.
    pub fn last_filled(&self) -> (instant: u64)
        ensures
            instant == self@.last_filled,
    {
        self.last_filled
    }
}

} // verus!
