use harbor_router::rate::RateLimiter;

#[test]
fn so_many_requests_pass_in_a_second() {
    let mut limiter = RateLimiter::new(2);
    assert!(limiter.allow("10.0.0.1", 5_000));
    assert!(limiter.allow("10.0.0.1", 5_500));
    assert!(!limiter.allow("10.0.0.1", 5_999));
    assert!(limiter.allow("10.0.0.2", 5_999));
    assert!(limiter.allow("10.0.0.1", 6_000));
}

#[test]
fn without_a_limit_every_request_passes() {
    let mut limiter = RateLimiter::new(0);
    for _ in 0..1_000 {
        assert!(limiter.allow("10.0.0.1", 0));
    }
}
