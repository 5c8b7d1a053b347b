use auth_core::errors::AppError;
use auth_core::limiter::RateLimiter;

#[test]
fn fourth_request_in_window_is_rejected() {
    let mut rl = RateLimiter::new(3, 60, 0);
    assert_eq!(rl.check(1), Ok(()));
    assert_eq!(rl.check(2), Ok(()));
    assert_eq!(rl.check(3), Ok(()));
    assert_eq!(rl.check(4), Err(AppError::RateLimitExceeded));
    assert_eq!(rl.count, 4);
}

#[test]
fn window_elapse_resets_the_counter() {
    let mut rl = RateLimiter::new(3, 60, 0);
    for t in 1..=3 {
        assert_eq!(rl.check(t), Ok(()));
    }
    assert_eq!(rl.check(59), Err(AppError::RateLimitExceeded));
    // the duration has elapsed: fresh window, request passes
    assert_eq!(rl.check(60), Ok(()));
    assert_eq!(rl.count, 1);
    assert_eq!(rl.window_start, 60);
}

#[test]
fn quota_zero_rejects_every_request() {
    let mut rl = RateLimiter::new(0, 10, 0);
    assert_eq!(rl.check(1), Err(AppError::RateLimitExceeded));
    assert_eq!(rl.check(11), Err(AppError::RateLimitExceeded));
}

#[test]
fn clock_going_backwards_stays_in_the_window() {
    let mut rl = RateLimiter::new(2, 60, 100);
    assert_eq!(rl.check(99), Ok(()));
    assert_eq!(rl.check(98), Ok(()));
    assert_eq!(rl.check(97), Err(AppError::RateLimitExceeded));
    assert_eq!(rl.window_start, 100);
}

#[test]
fn rate_limit_error_is_the_429_category() {
    assert_eq!(AppError::RateLimitExceeded.status_code(), 429);
    assert_eq!(AppError::RateLimitExceeded.message(), "Rate limit exceeded");
}
