//! A per-key token-bucket rate limiter.
//!
//! Every key owns a bucket of at most `capacity` tokens that refills linearly,
//! `capacity` tokens per refill period. A request takes one token or is denied
//! when none is left. Time is a count of milliseconds on a monotonic clock.
//!
//! - [`config`]: the validated capacity and refill period, and how they are
//!   read from text.
//! - [`engine`]: the decision for one request on one bucket.
//! - [`store`]: the buckets by key, read and written in one step.
//! - [`limiter`]: the store under one configuration, and what a caller is
//!   told.
//! - [`clock`]: the time source of a running limiter.
//! - [`run`]: what holds over sequences of requests: bursts, refill and the
//!   bound on admissions.
//! - [`numeral`]: decimal numerals in configuration text.

pub mod clock;
pub mod config;
pub mod engine;
pub mod limiter;
pub mod numeral;
pub mod run;
pub mod store;

pub use clock::Clock;
pub use config::{Config, ConfigError, Setting};
pub use engine::{decide, Bucket, Decision};
pub use limiter::{RateLimiter, Verdict};
pub use store::Store;
