use rtlmtr::engine::available;
use rtlmtr::{decide, Bucket, Config, Decision};

fn config(capacity: u64, refill_period_ms: u64) -> Config {
    Config::new(capacity, refill_period_ms).unwrap()
}

#[test]
fn fresh_key_starts_full() {
    let c = config(10, 10_000);
    assert_eq!(available(None, 0, &c), 10);
    assert_eq!(available(None, u64::MAX, &c), 10);
    let d = decide(None, 1234, &c);
    assert_eq!(
        d,
        Decision { admitted: true, bucket: Bucket { tokens: 9, last_refill: 1234 }, remaining: 9 }
    );
}

#[test]
fn refill_is_linear_and_rounds_down() {
    let c = config(10, 10_000);
    let empty = Some(Bucket { tokens: 0, last_refill: 0 });
    assert_eq!(available(empty, 0, &c), 0);
    assert_eq!(available(empty, 999, &c), 0);
    assert_eq!(available(empty, 1_000, &c), 1);
    assert_eq!(available(empty, 1_999, &c), 1);
    assert_eq!(available(empty, 5_000, &c), 5);
    assert_eq!(available(empty, 9_999, &c), 9);
    assert_eq!(available(empty, 10_000, &c), 10);
}

#[test]
fn refill_rounds_down_with_uneven_rate() {
    let c = config(3, 1_000);
    let empty = Some(Bucket { tokens: 0, last_refill: 100 });
    assert_eq!(available(empty, 433, &c), 0);
    assert_eq!(available(empty, 434, &c), 1);
    assert_eq!(available(empty, 766, &c), 1);
    assert_eq!(available(empty, 767, &c), 2);
    assert_eq!(available(empty, 1_099, &c), 2);
    assert_eq!(available(empty, 1_100, &c), 3);
}

#[test]
fn refill_adds_to_stored_tokens() {
    let c = config(10, 10_000);
    let b = Some(Bucket { tokens: 3, last_refill: 2_000 });
    assert_eq!(available(b, 2_000, &c), 3);
    assert_eq!(available(b, 6_500, &c), 7);
    let d = decide(b, 6_500, &c);
    assert_eq!(
        d,
        Decision { admitted: true, bucket: Bucket { tokens: 6, last_refill: 6_500 }, remaining: 6 }
    );
}

#[test]
fn capacity_is_a_ceiling() {
    let c = config(10, 10_000);
    let b = Some(Bucket { tokens: 7, last_refill: 0 });
    assert_eq!(available(b, 3_000, &c), 10);
    assert_eq!(available(b, 1_000_000_000, &c), 10);
    assert_eq!(available(b, u64::MAX, &c), 10);
    let over = Some(Bucket { tokens: 50, last_refill: 0 });
    assert_eq!(available(over, 0, &c), 10);
}

#[test]
fn full_refill_after_idle_period() {
    let c = config(10, 10_000);
    for tokens in 0..10u64 {
        let b = Some(Bucket { tokens, last_refill: 500 });
        assert_eq!(available(b, 10_500, &c), 10);
        let d = decide(b, 10_500, &c);
        assert!(d.admitted);
        assert_eq!(d.remaining, 9);
    }
    let b = Some(Bucket { tokens: 0, last_refill: 500 });
    assert_eq!(available(b, 10_499, &c), 9);
}

#[test]
fn clock_running_backwards_counts_as_no_time() {
    let c = config(10, 10_000);
    let b = Some(Bucket { tokens: 4, last_refill: 50_000 });
    assert_eq!(available(b, 49_999, &c), 4);
    assert_eq!(available(b, 0, &c), 4);
    let d = decide(b, 20_000, &c);
    assert_eq!(
        d,
        Decision { admitted: true, bucket: Bucket { tokens: 3, last_refill: 20_000 }, remaining: 3 }
    );
    let empty = Some(Bucket { tokens: 0, last_refill: 50_000 });
    let d = decide(empty, 1, &c);
    assert_eq!(
        d,
        Decision { admitted: false, bucket: Bucket { tokens: 0, last_refill: 1 }, remaining: 0 }
    );
}

#[test]
fn denied_request_refreshes_timestamp() {
    let c = config(10, 10_000);
    let empty = Some(Bucket { tokens: 0, last_refill: 0 });
    let d = decide(empty, 999, &c);
    assert_eq!(
        d,
        Decision { admitted: false, bucket: Bucket { tokens: 0, last_refill: 999 }, remaining: 0 }
    );
    let again = decide(Some(d.bucket), 1_000, &c);
    assert!(!again.admitted);
    assert_eq!(again.bucket, Bucket { tokens: 0, last_refill: 1_000 });
    let later = decide(Some(again.bucket), 2_000, &c);
    assert!(later.admitted);
    assert_eq!(later.remaining, 0);
}

#[test]
fn remaining_steps_down_by_one() {
    let c = config(5, 1_000);
    let mut prior = Some(Bucket { tokens: 4, last_refill: 77 });
    let mut expected = 3u64;
    loop {
        let d = decide(prior, 77, &c);
        assert!(d.admitted);
        assert_eq!(d.remaining, expected);
        assert!(d.remaining <= 4);
        assert_eq!(d.bucket.tokens, d.remaining);
        prior = Some(d.bucket);
        if expected == 0 {
            break;
        }
        expected -= 1;
    }
    let d = decide(prior, 77, &c);
    assert!(!d.admitted);
    assert_eq!(d.remaining, 0);
}

#[test]
fn extreme_values_do_not_overflow() {
    let c = config(u64::MAX, 1);
    let b = Some(Bucket { tokens: u64::MAX, last_refill: 0 });
    assert_eq!(available(b, u64::MAX, &c), u64::MAX);
    let d = decide(b, u64::MAX, &c);
    assert!(d.admitted);
    assert_eq!(d.remaining, u64::MAX - 1);

    let c = config(u64::MAX, u64::MAX);
    let empty = Some(Bucket { tokens: 0, last_refill: 0 });
    assert_eq!(available(empty, u64::MAX, &c), u64::MAX);
    assert_eq!(available(empty, u64::MAX - 1, &c), u64::MAX - 1);

    let c = config(1, u64::MAX);
    assert_eq!(available(empty, u64::MAX - 1, &c), 0);
    assert_eq!(available(empty, u64::MAX, &c), 1);
}

#[test]
fn capacity_of_one() {
    let c = config(1, 1_000);
    let d = decide(None, 0, &c);
    assert!(d.admitted);
    assert_eq!(d.remaining, 0);
    let d2 = decide(Some(d.bucket), 999, &c);
    assert!(!d2.admitted);
    let d3 = decide(Some(d.bucket), 1_000, &c);
    assert!(d3.admitted);
    assert_eq!(d3.remaining, 0);
}
