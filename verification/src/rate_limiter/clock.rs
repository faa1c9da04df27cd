//! The source of time that drives a bucket.

use std::time::{SystemTime, UNIX_EPOCH};
use vstd::prelude::*;

verus! {

/// A source of the current instant, in nanoseconds on a scale of the clock's own
/// choosing.
///
/// Nothing is promised of the instants a clock hands out: they may stand still or
/// run backwards, and every consumer in this crate is verified for all of them.
pub trait Clock {
    /// The current instant.
    fn now(&self) -> (instant: u64);
}

/// The wall clock of the machine, counted in nanoseconds since the Unix epoch.
#[derive(Clone, Copy, Debug, Default)]
pub struct SystemClock;

impl Clock for SystemClock {
    fn now(&self) -> (instant: u64) {
        system_nanos()
    }
}

/// Reads `std::time::SystemTime::now` and hands it on as nanoseconds since the
/// Unix epoch. No claim is made about the instant that comes back.
#[verifier::external_body]
fn system_nanos() -> (instant: u64) {
    match SystemTime::now().duration_since(UNIX_EPOCH) {
        Ok(since_epoch) => since_epoch.as_nanos() as u64,
        Err(_) => 0,
    }
}

} // verus!
