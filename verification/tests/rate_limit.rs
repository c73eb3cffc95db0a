use token_checkin::limiter::RateLimiter;

const WINDOW: u64 = 10;

#[test]
fn second_attempt_inside_window_denied() {
    let mut l = RateLimiter::new();
    assert!(l.try_acquire(1, 100, WINDOW));
    assert!(!l.try_acquire(1, 105, WINDOW));
}

#[test]
fn attempt_after_window_allowed() {
    let mut l = RateLimiter::new();
    assert!(l.try_acquire(1, 100, WINDOW));
    assert!(!l.try_acquire(1, 109, WINDOW));
    assert!(l.try_acquire(1, 110, WINDOW));
}

#[test]
fn denied_attempt_does_not_extend_window() {
    let mut l = RateLimiter::new();
    assert!(l.try_acquire(1, 100, WINDOW));
    assert!(!l.try_acquire(1, 105, WINDOW));
    // Were the denied attempt at 105 recorded, 110 would still be denied.
    assert!(l.try_acquire(1, 110, WINDOW));
}

#[test]
fn clients_are_throttled_independently() {
    let mut l = RateLimiter::new();
    assert!(l.try_acquire(1, 100, WINDOW));
    assert!(l.try_acquire(2, 100, WINDOW));
    assert!(!l.try_acquire(1, 101, WINDOW));
    assert!(!l.try_acquire(2, 101, WINDOW));
}

#[test]
fn unknown_client_always_allowed() {
    let mut l = RateLimiter::new();
    assert!(l.try_acquire(42, 0, WINDOW));
}
