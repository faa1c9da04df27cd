//! The rate limiter: a clock, the bucket it drives, the scheduler that
//! arbitrates between waiting callers, and the guard placed at call sites.

pub mod bucket;
pub mod clock;
pub mod guard;
pub mod history;
pub mod leaky_bucket;
pub mod scheduler;

pub use bucket::{BucketState, BucketView, Unsatisfiable};
pub use clock::{Clock, SystemClock};
pub use guard::ActionRateLimiter;
pub use history::{Event, Outcome};
pub use leaky_bucket::LeakyBucket;
pub use scheduler::{Admission, PendingRequest, Scheduler, SchedulerView};
