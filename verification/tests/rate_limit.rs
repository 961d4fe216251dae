use barter::rate_limit::WeightWindow;
use barter::time::{Duration, Instant};

fn at(millis: u128) -> Instant {
    Instant {
        nanos: millis * 1_000_000,
    }
}

#[test]
fn second_reserve_waits_when_weight_would_exceed_limit() {
    let start = at(1_000);
    let mut window = WeightWindow::new(20, Duration::from_millis(50), start);
    assert_eq!(window.reserve(20, start), Duration::zero());
    let wait = window.reserve(20, start);
    assert!(wait > Duration::zero());
    assert!(wait <= Duration::from_millis(50));
}

#[test]
fn observe_used_raises_consumed_weight() {
    let now = at(1_000);
    let mut window = WeightWindow::new(100, Duration::from_secs(60), now);
    assert_eq!(window.reserve(1, now), Duration::zero());
    window.observe_used(80, now);
    assert_eq!(window.used(), 80);
}

#[test]
fn a_wait_ends_with_the_interval() {
    let mut window = WeightWindow::new(20, Duration::from_millis(50), at(0));
    assert_eq!(window.reserve(15, at(10)), Duration::zero());
    assert_eq!(window.reserve(6, at(20)), Duration::from_millis(30));
    assert_eq!(window.used(), 15);
    assert_eq!(window.reserve(6, at(50)), Duration::zero());
    assert_eq!(window.used(), 6);
}

#[test]
fn no_weight_counts_as_one_and_no_limit_as_one() {
    let mut window = WeightWindow::new(0, Duration::from_millis(50), at(0));
    assert_eq!(window.limit, 1);
    assert_eq!(window.reserve(0, at(0)), Duration::zero());
    assert_eq!(window.used(), 1);
    window.start_new_window(0, at(7));
    assert_eq!(window.used(), 1);
    window.observe_used(0, at(8));
    assert_eq!(window.used(), 1);
    window.roll(at(57));
    assert_eq!(window.used(), 0);
}
