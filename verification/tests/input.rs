use hntui::input::{poll_timeout, tick_due, TICK_RATE_MILLIS};

const TICK: u128 = 200_000_000;

#[test]
fn the_wait_is_what_is_left_of_the_tick() {
    assert_eq!(poll_timeout(TICK, 0), TICK);
    assert_eq!(poll_timeout(TICK, 50_000_000), 150_000_000);
    assert_eq!(poll_timeout(TICK, TICK - 1), 1);
}

#[test]
fn there_is_no_wait_once_the_tick_is_over() {
    assert_eq!(poll_timeout(TICK, TICK), 0);
    assert_eq!(poll_timeout(TICK, TICK + 1), 0);
    assert_eq!(poll_timeout(TICK, u128::MAX), 0);
    assert_eq!(poll_timeout(0, 0), 0);
}

#[test]
fn a_tick_is_due_when_its_time_has_passed() {
    assert!(!tick_due(TICK, 0));
    assert!(!tick_due(TICK, TICK - 1));
    assert!(tick_due(TICK, TICK));
    assert!(tick_due(TICK, TICK + 1));
    assert!(tick_due(0, 0));
}

#[test]
fn the_wait_is_that_of_a_checked_subtraction_of_durations() {
    let tick = std::time::Duration::from_millis(TICK_RATE_MILLIS);
    for millis in [0u64, 1, 199, 200, 201, 5_000] {
        let elapsed = std::time::Duration::from_millis(millis);
        let expected = tick.checked_sub(elapsed).unwrap_or(std::time::Duration::from_secs(0));
        assert_eq!(poll_timeout(tick.as_nanos(), elapsed.as_nanos()), expected.as_nanos());
        assert_eq!(tick_due(tick.as_nanos(), elapsed.as_nanos()), elapsed >= tick);
    }
}

#[test]
fn ticks_come_five_times_a_second() {
    assert_eq!(TICK_RATE_MILLIS, 200);
}
