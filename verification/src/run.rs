//! Runs of requests for one key, and what the decision function guarantees
//! over them.
//!
//! A run is the sequence of times at which one key is asked about, in the
//! order in which the store serves the requests. The store is taken
//! exclusively for each request, so requests that arrive together are served
//! as some such sequence.

use crate::engine::{
    available_tokens, decide_spec, elapsed_ms, lemma_refill_of_period, refill_amount, Bucket,
    Decision,
};
use vstd::prelude::*;

verus! {

/// The key's bucket after the requests at `times`, starting from `prior`.
pub open spec fn bucket_after(
    prior: Option<Bucket>,
    times: Seq<u64>,
    capacity: u64,
    period: u64,
) -> Option<Bucket>
    decreases times.len(),
{
    if times.len() == 0 {
        prior
    } else {
        Some(
            decide_spec(
                bucket_after(prior, times.drop_last(), capacity, period),
                times.last(),
                capacity,
                period,
            ).bucket,
        )
    }
}

/// The decision on request number `i` of the run, counting from zero.
pub open spec fn nth_decision(
    prior: Option<Bucket>,
    times: Seq<u64>,
    i: int,
    capacity: u64,
    period: u64,
) -> Decision
    recommends
        0 <= i < times.len(),
{
    decide_spec(bucket_after(prior, times.take(i), capacity, period), times[i], capacity, period)
}

/// How many requests of the run are admitted.
pub open spec fn admitted_count(
    prior: Option<Bucket>,
    times: Seq<u64>,
    capacity: u64,
    period: u64,
) -> nat
    decreases times.len(),
{
    if times.len() == 0 {
        0
    } else {
        let earlier = admitted_count(prior, times.drop_last(), capacity, period);
        if nth_decision(prior, times, times.len() - 1, capacity, period).admitted {
            earlier + 1
        } else {
            earlier
        }
    }
}

/// No time passes from any request of the run to a later one.
pub open spec fn instantaneous(times: Seq<u64>) -> bool {
    forall|i: int, j: int| 0 <= i < j < times.len() ==> elapsed_ms(times[i], times[j]) == 0
}

/// The requests of the run come in the order of their times.
pub open spec fn in_time_order(times: Seq<u64>) -> bool {
    forall|i: int, j: int| 0 <= i < j < times.len() ==> times[i] <= times[j]
}

/// `n` less `m`, or zero where that would be negative.
spec fn minus_or_zero(n: nat, m: nat) -> nat {
    if n >= m {
        (n - m) as nat
    } else {
        0
    }
}

/// The smaller of two counts.
pub open spec fn smaller(n: nat, m: nat) -> nat {
    if n <= m {
        n
    } else {
        m
    }
}

/// Refill never counts more than the tokens of the two parts of a span.
proof fn lemma_refill_of_parts(capacity: u64, period: u64, first: nat, second: nat)
    requires
        period > 0,
    ensures
        refill_amount(capacity, period, first) + refill_amount(capacity, period, second)
            <= refill_amount(capacity, period, first + second),
{
    let c = capacity as int;
    let p = period as int;
    let x = c * first;
    let y = c * second;
    assert(c * (first + second) == x + y) by (nonlinear_arith)
        requires
            x == c * first,
            y == c * second,
    ;
    assert(x / p + y / p <= (x + y) / p) by (nonlinear_arith)
        requires
            p > 0,
            x >= 0,
            y >= 0,
    ;
}

/// After at least one request the key has a bucket: the one that the last
/// decision produced.
proof fn lemma_bucket_after_last(
    prior: Option<Bucket>,
    times: Seq<u64>,
    capacity: u64,
    period: u64,
)
    requires
        capacity > 0,
        period > 0,
        times.len() > 0,
    ensures
        bucket_after(prior, times, capacity, period) == Some(
            nth_decision(prior, times, times.len() - 1, capacity, period).bucket,
        ),
        bucket_after(prior, times, capacity, period)->0.last_refill == times.last(),
        bucket_after(prior, times, capacity, period)->0.tokens < capacity,
{
    assert(times.take(times.len() - 1) =~= times.drop_last());
}

/// A run in which no time passes uses up the tokens that its first request
/// finds, one per request, and then denies.
proof fn lemma_burst(prior: Option<Bucket>, times: Seq<u64>, capacity: u64, period: u64)
    requires
        capacity > 0,
        period > 0,
        times.len() > 0,
        instantaneous(times),
    ensures
        nth_decision(prior, times, times.len() - 1, capacity, period).admitted <==> times.len()
            - 1 < available_tokens(prior, times[0], capacity, period),
        nth_decision(prior, times, times.len() - 1, capacity, period).remaining == minus_or_zero(
            available_tokens(prior, times[0], capacity, period),
            times.len(),
        ),
        admitted_count(prior, times, capacity, period) == smaller(
            available_tokens(prior, times[0], capacity, period),
            times.len(),
        ),
    decreases times.len(),
{
    let earlier = times.drop_last();
    assert(times.take(times.len() - 1) =~= earlier);
    if times.len() == 1 {
        assert(admitted_count(prior, earlier, capacity, period) == 0);
    } else {
        assert(instantaneous(earlier));
        assert(earlier[0] == times[0]);
        lemma_burst(prior, earlier, capacity, period);
        lemma_bucket_after_last(prior, earlier, capacity, period);
        assert(elapsed_ms(earlier.last(), times.last()) == 0) by {
            assert(earlier.last() == times[times.len() - 2]);
        }
        lemma_refill_of_period(capacity, period, 0);
    }
}

/// A key never seen before is admitted on its first `capacity` requests
/// when no time passes between them, with `capacity - 1` down to zero
/// tokens remaining, and is denied on every request after those.
pub proof fn lemma_fresh_key_burst(times: Seq<u64>, i: int, capacity: u64, period: u64)
    requires
        capacity > 0,
        period > 0,
        instantaneous(times),
        0 <= i < times.len(),
    ensures
        i < capacity ==> nth_decision(None, times, i, capacity, period).admitted && nth_decision(
            None,
            times,
            i,
            capacity,
            period,
        ).remaining == capacity - 1 - i,
        i >= capacity ==> !nth_decision(None, times, i, capacity, period).admitted
            && nth_decision(None, times, i, capacity, period).remaining == 0,
{
    let upto = times.take(i + 1);
    assert(instantaneous(upto));
    assert(upto.take(i) =~= times.take(i));
    lemma_burst(None, upto, capacity, period);
}

/// Requests that arrive together are served one after the other, and no
/// more of them are admitted than the first one finds tokens: of `n`
/// requests on `k` available tokens, `k` are admitted when `k < n`, and all
/// `n` otherwise.
pub proof fn lemma_burst_admits_available(
    prior: Option<Bucket>,
    times: Seq<u64>,
    capacity: u64,
    period: u64,
)
    requires
        capacity > 0,
        period > 0,
        times.len() > 0,
        instantaneous(times),
    ensures
        admitted_count(prior, times, capacity, period) == smaller(
            available_tokens(prior, times[0], capacity, period),
            times.len(),
        ),
        admitted_count(prior, times, capacity, period) <= capacity,
{
    lemma_burst(prior, times, capacity, period);
}

/// Over a run in time order, the admitted requests and the tokens left at
/// its end are covered by the tokens that the first request finds and the
/// refill of the time from the first request to the last.
proof fn lemma_tokens_accounted(
    prior: Option<Bucket>,
    times: Seq<u64>,
    capacity: u64,
    period: u64,
)
    requires
        capacity > 0,
        period > 0,
        times.len() > 0,
        in_time_order(times),
    ensures
        admitted_count(prior, times, capacity, period) + bucket_after(
            prior,
            times,
            capacity,
            period,
        )->0.tokens <= available_tokens(prior, times[0], capacity, period) + refill_amount(
            capacity,
            period,
            elapsed_ms(times[0], times.last()),
        ),
    decreases times.len(),
{
    let earlier = times.drop_last();
    assert(times.take(times.len() - 1) =~= earlier);
    lemma_refill_of_period(capacity, period, 0);
    if times.len() == 1 {
        assert(admitted_count(prior, earlier, capacity, period) == 0);
    } else {
        assert(in_time_order(earlier));
        assert(earlier[0] == times[0]);
        assert(earlier.last() == times[times.len() - 2]);
        lemma_tokens_accounted(prior, earlier, capacity, period);
        lemma_bucket_after_last(prior, earlier, capacity, period);
        lemma_refill_of_parts(
            capacity,
            period,
            elapsed_ms(times[0], earlier.last()),
            elapsed_ms(earlier.last(), times.last()),
        );
    }
}

/// Over requests in time order, a key is admitted at most as often as the
/// first request finds tokens and the time from the first request to the
/// last refills: never more than twice the capacity within one refill
/// period.
pub proof fn lemma_admitted_bound(
    prior: Option<Bucket>,
    times: Seq<u64>,
    capacity: u64,
    period: u64,
)
    requires
        capacity > 0,
        period > 0,
        times.len() > 0,
        in_time_order(times),
    ensures
        admitted_count(prior, times, capacity, period) <= available_tokens(
            prior,
            times[0],
            capacity,
            period,
        ) + refill_amount(capacity, period, elapsed_ms(times[0], times.last())),
        times.last() - times[0] <= period ==> admitted_count(prior, times, capacity, period) <= 2
            * capacity,
{
    lemma_tokens_accounted(prior, times, capacity, period);
    lemma_refill_of_period(capacity, period, elapsed_ms(times[0], times.last()));
}

/// Within a window of one refill period, a key is admitted at most
/// `capacity` times, provided the tokens that the window's first request
/// finds and the refill over the window do not together exceed the
/// capacity, as when the window opens on an empty bucket.
pub proof fn lemma_capacity_bound(
    prior: Option<Bucket>,
    times: Seq<u64>,
    capacity: u64,
    period: u64,
)
    requires
        capacity > 0,
        period > 0,
        times.len() > 0,
        in_time_order(times),
        times.last() - times[0] <= period,
        available_tokens(prior, times[0], capacity, period) + refill_amount(
            capacity,
            period,
            elapsed_ms(times[0], times.last()),
        ) <= capacity,
    ensures
        admitted_count(prior, times, capacity, period) <= capacity,
{
    lemma_admitted_bound(prior, times, capacity, period);
}

} // verus!
