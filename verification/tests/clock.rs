use rtlmtr::clock::reading;
use rtlmtr::Clock;

#[test]
fn reading_keeps_counts_that_fit() {
    assert_eq!(reading(0), 0);
    assert_eq!(reading(1), 1);
    assert_eq!(reading(5_000), 5_000);
    assert_eq!(reading(u64::MAX as u128), u64::MAX);
}

#[test]
fn reading_saturates() {
    assert_eq!(reading(u64::MAX as u128 + 1), u64::MAX);
    assert_eq!(reading(u128::MAX), u64::MAX);
}

#[test]
fn clock_counts_from_its_start() {
    let clock = Clock::start();
    let first = clock.now_ms();
    assert!(first < 60_000);
    let mut last = first;
    for _ in 0..1_000 {
        let next = clock.now_ms();
        assert!(next >= last);
        last = next;
    }
}

#[test]
fn clock_advances() {
    let clock = Clock::start();
    let first = clock.now_ms();
    let runtime = tokio::runtime::Builder::new_current_thread().enable_time().build().unwrap();
    runtime.block_on(async {
        tokio::time::sleep(std::time::Duration::from_millis(30)).await;
    });
    let second = clock.now_ms();
    assert!(second >= first + 20);
    assert!(second < first + 10_000);
}
