//! The refill-and-consume decision for one bucket.
//!
//! A bucket's token count is only true as of its `last_refill`; every read
//! recomputes the tokens that have accrued since, lazily and without a timer.

use crate::config::Config;
use vstd::prelude::*;

verus! {

/// The rate-limit state of one key.
#[derive(Clone, Copy, Debug, PartialEq, Eq, Structural)]
pub struct Bucket {
    /// Tokens left as of `last_refill`.
    pub tokens: u64,
    /// Milliseconds on the monotonic clock at which `tokens` was written.
    pub last_refill: u64,
}

/// The outcome of one request.
#[derive(Clone, Copy, Debug, PartialEq, Eq, Structural)]
pub struct Decision {
    /// Whether the request took a token.
    pub admitted: bool,
    /// The bucket to store for the key.
    pub bucket: Bucket,
    /// Tokens left after this request.
    pub remaining: u64,
}

/// Time that passed from `last` to `now`; a clock that ran backwards counts
/// as no time at all.
pub open spec fn elapsed_ms(last: u64, now: u64) -> nat {
    if now >= last {
        (now - last) as nat
    } else {
        0
    }
}

/// Whole tokens that accrue in `elapsed` milliseconds at the rate of
/// `capacity` tokens per `period` milliseconds, rounded down.
pub open spec fn refill_amount(capacity: u64, period: u64, elapsed: nat) -> nat {
    (capacity as nat * elapsed) / (period as nat)
}

/// Tokens a request at `now` finds: a key without a bucket starts full, and
/// a stored bucket has gained its refill, up to `capacity`.
pub open spec fn available_tokens(
    prior: Option<Bucket>,
    now: u64,
    capacity: u64,
    period: u64,
) -> nat {
    match prior {
        None => capacity as nat,
        Some(b) => {
            let refilled = b.tokens as nat + refill_amount(
                capacity,
                period,
                elapsed_ms(b.last_refill, now),
            );
            if refilled < capacity {
                refilled
            } else {
                capacity as nat
            }
        },
    }
}

/// The decision for a request at `now`: admitted exactly when a token is
/// available. Either way the bucket is stamped with `now`, so that later
/// refill accrues from this request, admitted or denied. A key that keeps
/// asking in less time than one token takes to accrue therefore stays empty
/// until it pauses.
pub open spec fn decide_spec(
    prior: Option<Bucket>,
    now: u64,
    capacity: u64,
    period: u64,
) -> Decision {
    let available = available_tokens(prior, now, capacity, period);
    if available > 0 {
        Decision {
            admitted: true,
            bucket: Bucket { tokens: (available - 1) as u64, last_refill: now },
            remaining: (available - 1) as u64,
        }
    } else {
        Decision { admitted: false, bucket: Bucket { tokens: 0, last_refill: now }, remaining: 0 }
    }
}

/// The tokens available to a request at `now`.
pub fn available(prior: Option<Bucket>, now: u64, config: &Config) -> (tokens: u64)
    ensures
        tokens == available_tokens(prior, now, config.capacity(), config.refill_period_ms()),
        tokens <= config.capacity(),
{
    let capacity: u64 = config.capacity();
    let period: u64 = config.refill_period_ms();
    match prior {
        None => capacity,
        Some(b) => {
            let elapsed: u64 = if now >= b.last_refill {
                now - b.last_refill
            } else {
                0
            };
            assert(capacity * elapsed <= 0xFFFF_FFFF_FFFF_FFFF * 0xFFFF_FFFF_FFFF_FFFF)
                by (nonlinear_arith)
                requires
                    capacity <= 0xFFFF_FFFF_FFFF_FFFF,
                    elapsed <= 0xFFFF_FFFF_FFFF_FFFF,
            ;
            let accrued: u128 = (capacity as u128) * (elapsed as u128);
            let refill: u128 = accrued / (period as u128);
            assert(refill <= accrued) by (nonlinear_arith)
                requires
                    refill == accrued / (period as u128),
                    period >= 1,
            ;
            let refilled: u128 = (b.tokens as u128) + refill;
            if refilled < capacity as u128 {
                refilled as u64
            } else {
                capacity
            }
        },
    }
}

/// Decides one request: `prior` is the key's stored bucket, if it has one.
pub fn decide(prior: Option<Bucket>, now: u64, config: &Config) -> (d: Decision)
    ensures
        d == decide_spec(prior, now, config.capacity(), config.refill_period_ms()),
{
    let tokens: u64 = available(prior, now, config);
    if tokens > 0 {
        Decision {
            admitted: true,
            bucket: Bucket { tokens: tokens - 1, last_refill: now },
            remaining: tokens - 1,
        }
    } else {
        Decision { admitted: false, bucket: Bucket { tokens: 0, last_refill: now }, remaining: 0 }
    }
}

/// What a span refills: nothing when no time passes, at most a whole bucket
/// within a period, at least a whole bucket from a period on.
pub(crate) proof fn lemma_refill_of_period(capacity: u64, period: u64, elapsed: nat)
    requires
        period > 0,
    ensures
        elapsed == 0 ==> refill_amount(capacity, period, elapsed) == 0,
        elapsed <= period ==> refill_amount(capacity, period, elapsed) <= capacity,
        elapsed >= period ==> refill_amount(capacity, period, elapsed) >= capacity,
{
    let c = capacity as int;
    let p = period as int;
    let e = elapsed as int;
    assert(e == 0 ==> (c * e) / p == 0) by (nonlinear_arith)
        requires
            p > 0,
    ;
    assert(e <= p ==> (c * e) / p <= c) by (nonlinear_arith)
        requires
            p > 0,
            c >= 0,
            e >= 0,
    ;
    assert(e >= p ==> (c * e) / p >= c) by (nonlinear_arith)
        requires
            p > 0,
            c >= 0,
            e >= 0,
    ;
}

/// Every decision leaves between zero and `capacity - 1` tokens, stores what
/// it reports and stamps the bucket with the time of the request. A request
/// is denied only on an empty bucket, and a key without a bucket is admitted.
pub proof fn lemma_decision_in_range(prior: Option<Bucket>, now: u64, capacity: u64, period: u64)
    requires
        capacity > 0,
        period > 0,
    ensures
        available_tokens(prior, now, capacity, period) <= capacity,
        decide_spec(prior, now, capacity, period).admitted <==> available_tokens(
            prior,
            now,
            capacity,
            period,
        ) > 0,
        0 <= decide_spec(prior, now, capacity, period).remaining <= capacity - 1,
        decide_spec(prior, now, capacity, period).bucket.tokens == decide_spec(
            prior,
            now,
            capacity,
            period,
        ).remaining,
        decide_spec(prior, now, capacity, period).bucket.last_refill == now,
        decide_spec(prior, now, capacity, period).admitted ==> decide_spec(
            prior,
            now,
            capacity,
            period,
        ).remaining + 1 == available_tokens(prior, now, capacity, period),
        !decide_spec(prior, now, capacity, period).admitted ==> decide_spec(
            prior,
            now,
            capacity,
            period,
        ).remaining == 0,
        prior is None ==> decide_spec(prior, now, capacity, period).admitted && decide_spec(
            prior,
            now,
            capacity,
            period,
        ).remaining == capacity - 1,
{
}

/// After a full refill period without a request for the key, the next
/// request finds the bucket full, whatever it held before.
pub proof fn lemma_full_refill_after_idle(bucket: Bucket, now: u64, capacity: u64, period: u64)
    requires
        capacity > 0,
        period > 0,
        now >= bucket.last_refill,
        now - bucket.last_refill >= period,
    ensures
        available_tokens(Some(bucket), now, capacity, period) == capacity,
        decide_spec(Some(bucket), now, capacity, period).admitted,
        decide_spec(Some(bucket), now, capacity, period).remaining == capacity - 1,
{
    lemma_refill_of_period(capacity, period, elapsed_ms(bucket.last_refill, now));
}

/// When no time passes between two admitted requests for a key, one after
/// the other, the second leaves exactly one token fewer than the first.
pub proof fn lemma_remaining_steps_down(
    prior: Option<Bucket>,
    first: u64,
    second: u64,
    capacity: u64,
    period: u64,
)
    requires
        capacity > 0,
        period > 0,
        elapsed_ms(first, second) == 0,
        decide_spec(prior, first, capacity, period).admitted,
        decide_spec(
            Some(decide_spec(prior, first, capacity, period).bucket),
            second,
            capacity,
            period,
        ).admitted,
    ensures
        decide_spec(
            Some(decide_spec(prior, first, capacity, period).bucket),
            second,
            capacity,
            period,
        ).remaining + 1 == decide_spec(prior, first, capacity, period).remaining,
        decide_spec(prior, first, capacity, period).remaining <= capacity - 1,
        decide_spec(
            Some(decide_spec(prior, first, capacity, period).bucket),
            second,
            capacity,
            period,
        ).remaining >= 0,
{
    lemma_refill_of_period(capacity, period, 0);
}

} // verus!
