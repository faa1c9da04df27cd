use std::cell::Cell;

use space_traders_api::rate_limiter::{
    ActionRateLimiter, BucketState, Clock, LeakyBucket, SystemClock, Unsatisfiable,
};

const SECOND: u64 = 1_000_000_000;

/// A clock that shows whatever the test last set.
struct ManualClock<'a> {
    now: &'a Cell<u64>,
}

impl<'a> Clock for ManualClock<'a> {
    fn now(&self) -> u64 {
        self.now.get()
    }
}

#[test]
fn test_leaky_bucket() {
    let time = Cell::new(1_700_000_000 * SECOND);
    let mut b = LeakyBucket::new_with_clock(0, 100, 5, SECOND, ManualClock { now: &time });

    assert!(!b.take(5));

    time.set(time.get() + SECOND);
    assert!(b.take(5));
    assert!(!b.take(5));
    assert_eq!(Ok(u128::from(SECOND)), b.when(5));
    assert_eq!(Ok(u128::from(2 * SECOND)), b.when(10));

    time.set(time.get() + 2 * SECOND);
    assert!(b.take(5));
    assert!(b.take(5));
    assert!(!b.take(5));
}

#[test]
fn test_invoke_evaluates() {
    let a = ActionRateLimiter::<i64>::new(1, 1);

    let result: Result<i64, String> = a.invoke(|x: &i64| Ok(*x + 1));
    assert_eq!(Ok(2), result);

    let result: Result<i64, String> = a.invoke(|x: &i64| Ok(*x + 2));
    assert_eq!(Ok(3), result);
}

#[test]
fn invoke_hands_the_error_through() {
    let a = ActionRateLimiter::new(String::from("held"), 7);
    let result: Result<i64, String> = a.invoke(|held: &String| Err(format!("{} failed", held)));
    assert_eq!(Err(String::from("held failed")), result);
    assert_eq!(7, a.cost());
    assert_eq!("held", a.component());
}

#[test]
fn invoke_may_lend_the_component() {
    let a = ActionRateLimiter::new(vec![1, 2, 3], 1);
    let last: Option<&i32> = a.invoke(|held| held.last());
    assert_eq!(Some(&3), last);
}

#[test]
fn fill_from_empty_is_rate_times_elapsed_capped() {
    // 5 units a second into a bucket of 100.
    let mut b = BucketState::new(0, 100, 5, SECOND, 0);
    assert_eq!(0, b.filled());
    b.refill(3 * SECOND);
    assert_eq!(15, b.filled());
    b.refill(20 * SECOND);
    assert_eq!(100, b.filled());
    b.refill(1_000 * SECOND);
    assert_eq!(100, b.filled());
}

#[test]
fn fill_keeps_fractions_of_a_unit() {
    // One unit each 3 ns: after 2 ns and 2 ns more, one whole unit and a third.
    let mut b = BucketState::new(0, 10, 1, 3, 100);
    b.refill(102);
    assert_eq!(0, b.filled());
    assert!(!b.take(1, 102));
    b.refill(104);
    assert_eq!(1, b.filled());
    assert!(b.take(1, 104));
    assert_eq!(Ok(2), b.when(1, 104));
    assert!(!b.take(1, 105));
    assert!(b.take(1, 106));
}

#[test]
fn sampling_often_or_once_gives_the_same_level() {
    let mut often = BucketState::new(0, 1_000, 7, 13, 0);
    let mut once = BucketState::new(0, 1_000, 7, 13, 0);
    let mut now: u64 = 0;
    while now < 500 {
        now += 1;
        often.refill(now);
    }
    once.refill(500);
    assert_eq!(once.filled(), often.filled());
    assert_eq!(7 * 500 / 13, once.filled());
    assert_eq!(often.when(1_000, 500), once.when(1_000, 500));
}

#[test]
fn initial_amount_is_clamped_to_capacity() {
    let b = BucketState::new(250, 100, 5, SECOND, 0);
    assert_eq!(100, b.filled());
    assert_eq!(100, b.capacity());
    assert_eq!(5, b.fill_rate());
    assert_eq!(SECOND, b.fill_interval());
    assert_eq!(0, b.last_filled());
}

#[test]
fn take_lowers_the_level_by_the_amount_or_leaves_it() {
    let mut b = BucketState::new(40, 100, 5, SECOND, 0);
    assert!(b.take(15, 0));
    assert_eq!(25, b.filled());
    assert!(!b.take(26, 0));
    assert_eq!(25, b.filled());
    assert!(b.take(25, 0));
    assert_eq!(0, b.filled());
    assert!(b.take(0, 0));
}

#[test]
fn refill_twice_at_one_instant_is_refill_once() {
    let mut b = BucketState::new(0, 100, 5, SECOND, 0);
    b.refill(4 * SECOND);
    assert_eq!(20, b.filled());
    b.refill(4 * SECOND);
    assert_eq!(20, b.filled());
    assert_eq!(4 * SECOND, b.last_filled());
}

#[test]
fn a_clock_that_runs_backwards_credits_nothing() {
    let mut b = BucketState::new(10, 100, 5, SECOND, 10 * SECOND);
    b.refill(3 * SECOND);
    assert_eq!(10, b.filled());
    assert_eq!(10 * SECOND, b.last_filled());
    assert!(!b.take(11, 9 * SECOND));
    assert!(b.take(15, 11 * SECOND));
}

#[test]
fn when_is_zero_exactly_when_take_would_succeed() {
    let mut b = BucketState::new(10, 100, 5, SECOND, 0);
    assert_eq!(Ok(0), b.when(10, 0));
    assert_eq!(Ok(0), b.when(0, 0));
    assert_eq!(Ok(u128::from(SECOND / 5)), b.when(11, 0));
    assert!(b.take(10, 0));
}

#[test]
fn when_is_the_least_wait_that_suffices() {
    // 3 units each 10 ns: 7 units need 70 / 3 ns, rounded up to 24.
    let mut b = BucketState::new(0, 100, 3, 10, 1_000);
    assert_eq!(Ok(24), b.when(7, 1_000));
    let mut early = BucketState::new(0, 100, 3, 10, 1_000);
    assert!(!early.take(7, 1_023));
    let mut on_time = BucketState::new(0, 100, 3, 10, 1_000);
    assert!(on_time.take(7, 1_024));
}

#[test]
fn when_rejects_what_no_wait_can_satisfy() {
    let mut b = BucketState::new(0, 100, 5, SECOND, 0);
    assert_eq!(Err(Unsatisfiable::ExceedsCapacity), b.when(101, 0));
    assert_eq!(Ok(u128::from(20 * SECOND)), b.when(100, 0));
    assert!(!b.take(101, 1_000 * SECOND));

    let mut still = BucketState::new(10, 100, 0, SECOND, 0);
    assert_eq!(Ok(0), still.when(10, 0));
    assert_eq!(Err(Unsatisfiable::NeverRefills), still.when(11, 0));
    assert_eq!(Err(Unsatisfiable::ExceedsCapacity), still.when(101, 0));
    assert!(!still.take(11, 1_000 * SECOND));
}

#[test]
fn the_widest_bucket_does_not_overflow() {
    let mut b = BucketState::new(u64::MAX, u64::MAX, u64::MAX, u64::MAX, 0);
    assert_eq!(u64::MAX, b.filled());
    assert!(b.take(u64::MAX, 0));
    assert_eq!(0, b.filled());
    assert_eq!(Ok(u128::from(u64::MAX)), b.when(u64::MAX, 0));
    b.refill(u64::MAX);
    assert_eq!(u64::MAX, b.filled());

    let mut slow = BucketState::new(0, u64::MAX, 1, u64::MAX, 0);
    assert_eq!(Ok(u128::from(u64::MAX) * u128::from(u64::MAX)), slow.when(u64::MAX, 0));
}

#[test]
fn a_bucket_parts_from_its_clock() {
    let time = Cell::new(5 * SECOND);
    let mut b = LeakyBucket::new_with_clock(30, 100, 5, SECOND, ManualClock { now: &time });
    assert_eq!(30, b.state().filled());
    assert_eq!(5 * SECOND, b.state().last_filled());
    time.set(6 * SECOND);
    assert_eq!(Ok(0), b.when(35));
    let (state, _clock) = b.into_parts();
    assert_eq!(35, state.filled());
    assert_eq!(6 * SECOND, state.last_filled());
}

#[test]
fn the_wall_clock_drives_a_bucket() {
    let before = SystemClock.now();
    let mut b = LeakyBucket::new(3, 10, 1, SECOND);
    let after = SystemClock.now();
    assert!(before > 1_600_000_000 * SECOND);
    assert!(before <= b.state().last_filled() && b.state().last_filled() <= after);
    assert!(b.take(3));
    assert!(!b.take(8));
}
