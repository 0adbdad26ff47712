use webx_metrics_pro::limiter::{check_rate_limit, check_rate_limit_at, RateLimiter};
use webx_metrics_pro::security::{check_global_rate, check_login_rate};

#[test]
fn test_login_rate_limit() {
    // Five attempts from one address pass; the sixth within the minute is refused.
    let mut limiter = RateLimiter::new();
    for _ in 0..5 {
        assert!(check_login_rate(&mut limiter, "1.2.3.4"));
    }
    assert!(!check_login_rate(&mut limiter, "1.2.3.4"));
}

#[test]
fn login_limit_is_per_address() {
    let mut limiter = RateLimiter::new();
    for _ in 0..5 {
        assert!(check_login_rate(&mut limiter, "1.2.3.4"));
    }
    assert!(!check_login_rate(&mut limiter, "1.2.3.4"));
    assert!(check_login_rate(&mut limiter, "5.6.7.8"));
}

#[test]
fn global_limit_admits_one_hundred_per_window() {
    let mut limiter = RateLimiter::new();
    for _ in 0..100 {
        assert!(check_global_rate(&mut limiter, "10.0.0.1"));
    }
    assert!(!check_global_rate(&mut limiter, "10.0.0.1"));
    // The login window of the same address is a separate key.
    assert!(check_login_rate(&mut limiter, "10.0.0.1"));
}

#[test]
fn window_admits_exactly_up_to_limit() {
    let mut limiter = RateLimiter::new();
    let key = || "k".to_string();
    let answers: Vec<bool> = (0..5u64)
        .map(|t| check_rate_limit_at(&mut limiter, key(), 3, 1000, 100 + t * 10))
        .collect();
    assert_eq!(answers, vec![true, true, true, false, false]);
}

#[test]
fn window_expiry_readmits() {
    let mut limiter = RateLimiter::new();
    assert!(check_rate_limit_at(&mut limiter, "k".into(), 1, 1000, 0));
    assert!(!check_rate_limit_at(&mut limiter, "k".into(), 1, 1000, 1000));
    // 1001 ticks after the window opened, it has run out.
    assert!(check_rate_limit_at(&mut limiter, "k".into(), 1, 1000, 1001));
    assert!(!check_rate_limit_at(&mut limiter, "k".into(), 1, 1000, 1500));
}

#[test]
fn zero_limit_refuses_within_window() {
    let mut limiter = RateLimiter::new();
    assert!(!check_rate_limit_at(&mut limiter, "k".into(), 0, 1000, 5));
    assert!(!check_rate_limit_at(&mut limiter, "k".into(), 0, 1000, 900));
    // A run-out window is reopened and the request admitted, as the limiter counts it.
    assert!(check_rate_limit_at(&mut limiter, "k".into(), 0, 1000, 2000));
}

#[test]
fn earlier_clock_reading_counts_as_no_time() {
    let mut limiter = RateLimiter::new();
    assert!(check_rate_limit_at(&mut limiter, "k".into(), 2, 10, 500));
    assert!(check_rate_limit_at(&mut limiter, "k".into(), 2, 10, 100));
    assert!(!check_rate_limit_at(&mut limiter, "k".into(), 2, 10, 0));
}

#[test]
fn check_rate_limit_uses_the_clock() {
    let mut limiter = RateLimiter::new();
    assert!(check_rate_limit(&mut limiter, "global:x".into(), 2, 60_000_000_000));
    assert!(check_rate_limit(&mut limiter, "global:x".into(), 2, 60_000_000_000));
    assert!(!check_rate_limit(&mut limiter, "global:x".into(), 2, 60_000_000_000));
}
