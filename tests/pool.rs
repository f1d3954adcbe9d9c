use sleepers::pool::{
    sleep_duration, SleeperPool, ERROR_BACKOFF_NS, MINIMUM_SLEEP_NS, PAUSE_NS,
};

const SECOND: u64 = 1_000_000_000;

#[test]
fn sleep_is_time_left_to_deadline() {
    assert_eq!(sleep_duration(15 * SECOND, 2 * SECOND), 13 * SECOND);
}

#[test]
fn sleep_after_deadline_is_the_minimum() {
    assert_eq!(sleep_duration(15 * SECOND, 15 * SECOND), MINIMUM_SLEEP_NS);
    assert_eq!(sleep_duration(15 * SECOND, 40 * SECOND), MINIMUM_SLEEP_NS);
}

#[test]
fn sleep_is_never_zero() {
    for elapsed in [0, 1, SECOND, 15 * SECOND - 1, 15 * SECOND, u64::MAX] {
        assert!(sleep_duration(15 * SECOND, elapsed) > 0);
    }
    assert!(sleep_duration(0, 0) >= MINIMUM_SLEEP_NS);
}

#[test]
fn new_pool_has_nothing_started() {
    let p = SleeperPool::new(3, 15 * SECOND);
    assert_eq!(p.count(), 3);
    assert_eq!(p.started(), 0);
    assert_eq!(p.failures(), 0);
    assert!(p.is_accumulating());
    assert_eq!(p.next_sleep_ns(SECOND / 1000), 15 * SECOND - SECOND / 1000);
}

#[test]
fn empty_pool_is_not_accumulating() {
    let p = SleeperPool::new(0, 15 * SECOND);
    assert!(!p.is_accumulating());
}

#[test]
fn failures_back_off_linearly_then_success_resets() {
    let mut p = SleeperPool::new(5, 15 * SECOND);
    let n: u64 = 4;
    for k in 1..=n {
        let pauses = p.record_attempt(false);
        assert_eq!(pauses.backoff_ns, Some((1 + k) * ERROR_BACKOFF_NS));
        assert!(pauses.backoff_ns.unwrap() >= (1 + k) * ERROR_BACKOFF_NS);
        assert_eq!(p.failures(), k);
        assert_eq!(p.started(), 0);
    }
    let pauses = p.record_attempt(true);
    assert_eq!(pauses.backoff_ns, None);
    assert_eq!(p.started(), 1);
    assert_eq!(p.failures(), 0);
}

#[test]
fn first_failure_backs_off_one_second() {
    let mut p = SleeperPool::new(1, 15 * SECOND);
    let pauses = p.record_attempt(false);
    assert_eq!(pauses.backoff_ns, Some(SECOND));
    // nothing created yet, which is a multiple of the pause interval
    assert_eq!(pauses.yield_ns, Some(PAUSE_NS));
}

#[test]
fn pool_reaches_count_despite_failures() {
    let mut p = SleeperPool::new(3, 15 * SECOND);
    let outcomes = [false, true, false, false, true, true];
    for ok in outcomes {
        assert!(p.is_accumulating());
        p.record_attempt(ok);
    }
    assert_eq!(p.started(), 3);
    assert!(!p.is_accumulating());
}

#[test]
fn short_pause_every_twenty_sleepers() {
    let mut p = SleeperPool::new(45, 15 * SECOND);
    for i in 1..=45usize {
        let pauses = p.record_attempt(true);
        if i % 20 == 0 {
            assert_eq!(pauses.yield_ns, Some(PAUSE_NS));
        } else {
            assert_eq!(pauses.yield_ns, None);
        }
    }
    assert_eq!(p.started(), 45);
}

#[test]
fn three_sleepers_sleep_close_to_full_duration() {
    let mut p = SleeperPool::new(3, 15 * SECOND);
    let mut sleeps = Vec::new();
    while p.is_accumulating() {
        sleeps.push(p.next_sleep_ns(5_000_000));
        p.record_attempt(true);
    }
    assert_eq!(sleeps, vec![15 * SECOND - 5_000_000; 3]);
}
