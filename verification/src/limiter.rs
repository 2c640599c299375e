//! The rate limiter: a configuration and the store it governs.

use crate::clock::Clock;
use crate::config::Config;
use crate::engine::{decide, decide_spec, Bucket, Decision};
use crate::store::Store;
use vstd::prelude::*;

verus! {

/// Status of a response to an admitted request.
pub const STATUS_OK: u16 = 200;

/// Status of a response to a denied request.
pub const STATUS_TOO_MANY_REQUESTS: u16 = 429;

/// Name of the response header that carries the configured capacity.
pub const LIMIT_HEADER: &'static str = "x-ratelimit-limit";

/// Name of the response header that carries the tokens left to the key.
pub const REMAINING_HEADER: &'static str = "x-ratelimit-remaining";

/// What the caller of the limiter is told about one request.
#[derive(Clone, Copy, Debug, PartialEq, Eq, Structural)]
pub struct Verdict {
    /// Whether the request may proceed.
    pub admitted: bool,
    /// Tokens left to the key after this request.
    pub remaining: u64,
    /// The configured capacity.
    pub limit: u64,
}

impl Verdict {
    /// The HTTP status of the response.
    pub open spec fn spec_status_code(&self) -> u16 {
        if self.admitted {
            STATUS_OK
        } else {
            STATUS_TOO_MANY_REQUESTS
        }
    }

    /// The HTTP status of the response: `STATUS_OK` for an admitted request,
    /// `STATUS_TOO_MANY_REQUESTS` for a denied one.
    #[verifier::when_used_as_spec(spec_status_code)]
    pub fn status_code(&self) -> (code: u16)
        ensures
            code == self.spec_status_code(),
    {
        if self.admitted {
            STATUS_OK
        } else {
            STATUS_TOO_MANY_REQUESTS
        }
    }
}

/// The verdict that reports `decision` under a capacity of `limit`.
pub open spec fn verdict_of(decision: Decision, limit: u64) -> Verdict {
    Verdict { admitted: decision.admitted, remaining: decision.remaining, limit }
}

/// Whether every bucket of `buckets` holds fewer than `capacity` tokens, as
/// every bucket does that a decision has produced.
pub open spec fn within_capacity(buckets: Map<Seq<char>, Bucket>, capacity: u64) -> bool {
    forall|k: Seq<char>| #[trigger] buckets.contains_key(k) ==> buckets[k].tokens < capacity
}

/// A token-bucket limiter over string keys.
pub struct RateLimiter {
    config: Config,
    store: Store,
}

impl View for RateLimiter {
    type V = Map<Seq<char>, Bucket>;

    closed spec fn view(&self) -> Map<Seq<char>, Bucket> {
        self.store@
    }
}

impl RateLimiter {
    /// The configuration that governs every key.
    pub closed spec fn spec_config(&self) -> Config {
        self.config
    }

    /// The limiter's invariant: no stored bucket has reached the capacity. A
    /// new limiter satisfies it and every request preserves it.
    pub open spec fn wf(&self) -> bool {
        within_capacity(self@, self.spec_config().capacity())
    }

    /// A limiter that has seen no key.
    pub fn new(config: Config) -> (limiter: RateLimiter)
        ensures
            limiter@ == Map::<Seq<char>, Bucket>::empty(),
            limiter.spec_config() == config,
            limiter.wf(),
    {
        RateLimiter { config, store: Store::new() }
    }

    /// The configuration that governs every key.
    #[verifier::when_used_as_spec(spec_config)]
    pub fn config(&self) -> (c: Config)
        ensures
            c == self.spec_config(),
    {
        self.config
    }

    /// The number of keys seen so far.
    pub fn tracked_keys(&self) -> (n: usize)
        ensures
            n == self@.len(),
    {
        self.store.len()
    }

    /// The decision on a request for `key` at `now_ms` in this state.
    pub open spec fn decision_at(&self, key: Seq<char>, now_ms: u64) -> Decision {
        decide_spec(
            self@.get(key),
            now_ms,
            self.spec_config().capacity(),
            self.spec_config().refill_period_ms(),
        )
    }

    /// Decides a request for `key` at `now_ms` and stores the key's new
    /// bucket, as one step. The buckets of other keys stay as they are.
    pub fn check_at(&mut self, key: &str, now_ms: u64) -> (verdict: Verdict)
        ensures
            verdict == verdict_of(
                old(self).decision_at(key@, now_ms),
                old(self).spec_config().capacity(),
            ),
            final(self)@ == old(self)@.insert(key@, old(self).decision_at(key@, now_ms).bucket),
            final(self).spec_config() == old(self).spec_config(),
            old(self).wf() ==> final(self).wf(),
    {
        let config: Config = self.config;
        let update = |prior: Option<Bucket>| -> (r: (Bucket, Decision))
            ensures
                r == (
                    decide_spec(prior, now_ms, config.capacity(), config.refill_period_ms()).bucket,
                    decide_spec(prior, now_ms, config.capacity(), config.refill_period_ms()),
                ),
            {
                let d: Decision = decide(prior, now_ms, &config);
                (d.bucket, d)
            };
        let decision: Decision = self.store.with_bucket(key, update);
        Verdict { admitted: decision.admitted, remaining: decision.remaining, limit: config.capacity() }
    }

    /// Decides a request for `key` at the time that `clock` shows. Whatever
    /// the reading is, the outcome is that of [`RateLimiter::check_at`] for
    /// it.
    pub fn check(&mut self, key: &str, clock: &Clock) -> (verdict: Verdict)
        ensures
            exists|now_ms: u64|
                {
                    &&& verdict == verdict_of(
                        #[trigger] old(self).decision_at(key@, now_ms),
                        old(self).spec_config().capacity(),
                    )
                    &&& final(self)@ == old(self)@.insert(
                        key@,
                        old(self).decision_at(key@, now_ms).bucket,
                    )
                },
            final(self).spec_config() == old(self).spec_config(),
            old(self).wf() ==> final(self).wf(),
    {
        let now_ms: u64 = clock.now_ms();
        self.check_at(key, now_ms)
    }
}

} // verus!
