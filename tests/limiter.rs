use vibecheck_core::rate_limiter::ToyRateLimiter;

#[test]
fn first_check_after_interval_passes() {
    let mut lim = ToyRateLimiter::new(10);
    assert!(!lim.can_send(99));
    assert!(lim.can_send(100));
    assert!(!lim.can_send(199));
    assert!(lim.can_send(200));
}

#[test]
fn at_most_rate_plus_one_per_second() {
    let mut lim = ToyRateLimiter::new(3);
    let mut sent = 0;
    for t in 1000..2000u64 {
        if lim.can_send(t) {
            sent += 1;
        }
    }
    assert_eq!(sent, 4);
}

#[test]
fn clock_going_back_sends_nothing() {
    let mut lim = ToyRateLimiter::new(10);
    assert!(lim.can_send(5000));
    assert!(!lim.can_send(10));
}

#[test]
fn update_rate_changes_interval() {
    let mut lim = ToyRateLimiter::new(10);
    assert!(lim.can_send(1000));
    lim.update_rate(100);
    assert!(lim.can_send(1010));
    assert!(!lim.can_send(1019));
}
