//! A monotonic clock that counts milliseconds from its own creation.

use vstd::prelude::*;

verus! {

/// `tokio::time::Instant`: a reading of tokio's monotonic clock. Nothing of
/// its content is visible to the verifier.
#[verifier::external_type_specification]
#[verifier::external_body]
pub struct ExInstant(tokio::time::Instant);

/// Calls `tokio::time::Instant::now`. Nothing is claimed of the reading.
#[verifier::external_body]
fn instant_now() -> (now: tokio::time::Instant) {
    tokio::time::Instant::now()
}

/// Calls `tokio::time::Instant::elapsed` on `origin` and expresses the
/// duration in whole milliseconds. Nothing is claimed of the count: it
/// depends on when the call is made.
#[verifier::external_body]
fn millis_since(origin: &tokio::time::Instant) -> (millis: u128) {
    origin.elapsed().as_millis()
}

/// The time source of a running limiter. Its readings never decrease, since
/// the underlying clock is monotonic, but to the verifier any reading may
/// follow any other.
pub struct Clock {
    origin: tokio::time::Instant,
}

/// The reading for a count of `millis` milliseconds: the count itself, or
/// the largest reading when the count is beyond it.
pub open spec fn reading_of(millis: u128) -> u64 {
    if millis > u64::MAX {
        u64::MAX
    } else {
        millis as u64
    }
}

/// Turns a millisecond count into a reading.
pub fn reading(millis: u128) -> (r: u64)
    ensures
        r == reading_of(millis),
{
    if millis > u64::MAX as u128 {
        u64::MAX
    } else {
        millis as u64
    }
}

impl Clock {
    /// A clock that starts counting now. Its origin is the instant that
    /// tokio's clock shows at the call, of which nothing can be said ahead.
    pub fn start() -> Clock {
        Clock { origin: instant_now() }
    }

    /// Milliseconds since the clock was started. The value is whatever the
    /// clock shows at the call, so nothing is promised of it; [`reading`]
    /// says how the count becomes the reading, and every `u64` is the
    /// reading of some count.
    pub fn now_ms(&self) -> u64 {
        reading(millis_since(&self.origin))
    }
}

} // verus!
