use gridstack::rate_limit::RateLimiterState;

#[test]
fn allows_up_to_the_limit_within_a_window() {
    let mut limiter = RateLimiterState::new(60_000, 2);
    assert!(limiter.allow_request("alice", 1_000));
    assert!(limiter.allow_request("alice", 2_000));
    assert!(!limiter.allow_request("alice", 3_000));
    assert!(limiter.allow_request("bob", 3_000));
}

#[test]
fn window_resets_after_it_runs_out() {
    let mut limiter = RateLimiterState::new(60_000, 1);
    assert!(limiter.allow_request("alice", 0));
    assert!(!limiter.allow_request("alice", 60_000));
    assert!(limiter.allow_request("alice", 60_001));
    assert!(!limiter.allow_request("alice", 60_002));
}

#[test]
fn zero_limit_refuses_everything() {
    let mut limiter = RateLimiterState::new(1_000, 0);
    assert!(!limiter.allow_request("alice", 0));
    assert!(!limiter.allow_request("alice", 5_000));
}

#[test]
fn clock_going_back_keeps_the_window() {
    let mut limiter = RateLimiterState::new(10, 1);
    assert!(limiter.allow_request("alice", 100));
    assert!(!limiter.allow_request("alice", 50));
}

#[test]
fn fresh_limiter_sequence() {
    let mut limiter = RateLimiterState::new(1000, 3);
    for _ in 0..3 {
        assert!(limiter.allow_request("@a:example.org", 0));
    }
    assert!(!limiter.allow_request("@a:example.org", 0));
    assert!(!limiter.allow_request("@a:example.org", 1000));
    assert!(limiter.allow_request("@b:example.org", 0));
    assert!(limiter.allow_request("@a:example.org", 1001));
}
