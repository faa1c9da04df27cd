//! The logic of a client for the SpaceTraders game API, built around a verified
//! rate limiter.
//!
//! - [`rate_limiter`] holds the limiter: a leaky bucket that is exact at every
//!   instant, the decisions of the scheduler that admits, queues and wakes
//!   requests for quota, and what holds of every run of that scheduler.
//! - [`types`] holds the records that the service exchanges, among them the
//!   symbols that name sectors, systems and waypoints.
//! - [`request`], [`paging`], [`search`] and [`error`] hold what a client decides
//!   around a call: how a request is addressed, which pages of a listing to
//!   fetch, which waypoints to keep, and what to raise when an answer cannot be
//!   read.
//!
//! Nothing here waits, sleeps or touches the network: every function is handed
//! what it needs and says what it decided.

pub mod error;
pub mod paging;
pub mod rate_limiter;
pub mod request;
pub mod search;
pub mod types;
