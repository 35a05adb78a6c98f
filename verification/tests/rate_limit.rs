use tunnelx::config::RATE_LIMIT_PER_CLIENT;
use tunnelx::rate_limit::{window_is_recent, RateLimiter};

/// Milliseconds as the limiter's nanosecond clock counts them.
fn window_ms(n: u64) -> u64 {
    n * 1_000_000
}

#[test]
fn allows_requests_below_limit() {
    let mut limiter = RateLimiter::new();
    for _ in 0..100 {
        assert!(limiter.check_and_update("client1"));
    }
}

#[test]
fn blocks_requests_above_limit() {
    let mut limiter = RateLimiter::new();
    for _ in 0..RATE_LIMIT_PER_CLIENT {
        assert!(limiter.check_and_update("client2"));
    }
    assert!(!limiter.check_and_update("client2"));
}

#[test]
fn resets_after_one_second() {
    let mut limiter = RateLimiter::new();
    let now = limiter.now();
    limiter.set_window("client3", now, 1000);
    assert!(!limiter.check_and_update("client3"));

    // The window now started a second before `now + 1_000_000_000`.
    limiter.set_window("client3", now, 1000);
    assert!(limiter.check_and_update_at("client3", now + 1_000_000_000));
}

#[test]
fn clients_are_counted_apart() {
    let mut limiter = RateLimiter::new();
    limiter.set_window("busy", 0, RATE_LIMIT_PER_CLIENT);
    assert!(!limiter.check_and_update_at("busy", window_ms(500)));
    assert!(limiter.check_and_update_at("quiet", window_ms(500)));
}

#[test]
fn window_just_under_a_second_still_counts() {
    let mut limiter = RateLimiter::new();
    limiter.set_window("c", window_ms(1000), RATE_LIMIT_PER_CLIENT);
    assert!(!limiter.check_and_update_at("c", window_ms(1999)));
    assert!(limiter.check_and_update_at("c", window_ms(2000)));
    // The fresh window counts from one.
    for _ in 1..RATE_LIMIT_PER_CLIENT {
        assert!(limiter.check_and_update_at("c", window_ms(2000)));
    }
    assert!(!limiter.check_and_update_at("c", window_ms(2000)));
}

#[test]
fn cleanup_keeps_windows_of_the_last_minute() {
    let mut limiter = RateLimiter::new();
    limiter.set_window("old", 0, RATE_LIMIT_PER_CLIENT);
    limiter.set_window("recent", window_ms(59_500), RATE_LIMIT_PER_CLIENT);
    limiter.cleanup_at(window_ms(60_000));
    // The recent window is kept, full, within its second.
    assert!(!limiter.check_and_update_at("recent", window_ms(60_000)));
    // The old one is gone: the client starts over.
    assert!(limiter.check_and_update_at("old", window_ms(60_000)));
    assert!(window_is_recent((window_ms(10_000), 5), window_ms(69_999)));
    assert!(!window_is_recent((window_ms(10_000), 5), window_ms(70_000)));
    assert!(window_is_recent((window_ms(80_000), 5), window_ms(70_000)));
}

#[test]
fn cleanup_without_time_keeps_fresh_windows() {
    let mut limiter = RateLimiter::new();
    let now = limiter.now();
    limiter.set_window("fresh", now, RATE_LIMIT_PER_CLIENT);
    limiter.cleanup();
    assert!(!limiter.check_and_update_at("fresh", now));
}

#[test]
fn window_resets_after_exactly_one_second() {
    let mut limiter = RateLimiter::new();
    limiter.set_window("edge", 5, RATE_LIMIT_PER_CLIENT);
    assert!(!limiter.check_and_update_at("edge", 1_000_000_004));
    assert!(limiter.check_and_update_at("edge", 1_000_000_005));
}
