use microsandbox_terminal::RateLimiter;
use std::time::{Duration, Instant};

const SECOND: u128 = 1_000_000_000;

#[test]
fn test_initial_burst() {
    let mut limiter = RateLimiter::new(10, 5);

    // Should allow burst of 5
    for _ in 0..5 {
        assert!(limiter.check());
    }

    // 6th should be rate limited
    assert!(!limiter.check());
}

#[test]
fn test_refill() {
    let mut limiter = RateLimiter::new(100, 10);

    // Exhaust all tokens
    for _ in 0..10 {
        assert!(limiter.check());
    }
    assert!(!limiter.check());

    // Wait for refill (100 tokens/sec = 10ms per token)
    let start = Instant::now();
    while start.elapsed() < Duration::from_millis(15) {}

    // Should have at least 1 token now
    assert!(limiter.check());
}

#[test]
fn test_peek_doesnt_consume() {
    let mut limiter = RateLimiter::new(10, 2);

    assert!(limiter.peek());
    assert!(limiter.peek());
    assert!(limiter.peek());

    // Tokens still available
    assert_eq!(limiter.tokens() as u32, 2);
}

#[test]
fn test_reset() {
    let mut limiter = RateLimiter::new(10, 5);

    // Exhaust tokens
    for _ in 0..5 {
        limiter.check();
    }
    assert!(!limiter.check());

    // Reset
    limiter.reset();

    // Should be back to full capacity
    assert!(limiter.check());
    assert_eq!(limiter.tokens() as u32, 4);
}

#[test]
fn default_limiter_allows_bursts_of_twenty() {
    let mut limiter = RateLimiter::default_terminal();
    assert_eq!(limiter.rate(), 10);
    assert_eq!(limiter.capacity(), 20);
    for _ in 0..20 {
        assert!(limiter.check_at(0));
    }
    assert!(!limiter.check_at(0));
    let other = RateLimiter::default();
    assert_eq!((other.rate(), other.capacity()), (10, 20));
}

#[test]
fn refill_is_exact() {
    let mut limiter = RateLimiter::new(3, 2);
    assert!(limiter.check_at(0));
    assert!(limiter.check_at(0));
    assert_eq!(limiter.token_parts_at(0), 0);
    assert_eq!(limiter.token_parts_at(7), 21);
    assert_eq!(limiter.token_parts_at(100), 300);
    assert!(!limiter.check_at(333_333_333));
    assert!(limiter.check_at(333_333_334));
    assert_eq!(limiter.token_parts_at(333_333_334), 2);
    assert_eq!(limiter.tokens_at(333_333_334), 0);
    assert_eq!(limiter.tokens_at(SECOND), 2);
}

#[test]
fn refill_stops_at_the_capacity() {
    let mut limiter = RateLimiter::new(u32::MAX, 3);
    assert!(limiter.check_at(0));
    assert_eq!(limiter.tokens_at(u128::MAX), 3);
    assert_eq!(limiter.token_parts_at(u128::MAX), 3_000_000_000);
    let mut large = RateLimiter::new(1, u32::MAX);
    assert_eq!(large.tokens_at(5), u32::MAX);
}

#[test]
fn allowed_actions_stay_within_burst_and_rate() {
    let mut limiter = RateLimiter::new(10, 5);
    let mut allowed = 0;
    let mut now = 0u128;
    while now <= 2 * SECOND {
        if limiter.check_at(now) {
            allowed += 1;
        }
        now += SECOND / 1000;
    }
    assert_eq!(allowed, 5 + 2 * 10);
}

#[test]
fn sustained_rate_is_never_limited() {
    let mut limiter = RateLimiter::new(10, 1);
    let mut now = 0u128;
    for _ in 0..100 {
        assert!(limiter.check_at(now));
        now += SECOND / 10;
    }
}

#[test]
fn peeking_in_between_changes_nothing() {
    let mut watched = RateLimiter::new(7, 2);
    let mut plain = RateLimiter::new(7, 2);
    for _ in 0..2 {
        assert!(watched.check_at(0));
        assert!(plain.check_at(0));
    }
    for now in 1..1000u128 {
        watched.peek_at(now);
    }
    assert_eq!(watched.token_parts_at(1000), plain.token_parts_at(1000));
}

#[test]
fn wait_until_the_next_token() {
    let mut limiter = RateLimiter::new(4, 1);
    assert_eq!(limiter.time_until_available_at(0), 0);
    assert!(limiter.check_at(0));
    assert_eq!(limiter.time_until_available_at(0), 250_000_000);
    assert_eq!(limiter.time_until_available_at(100_000_000), 150_000_000);
    assert!(!limiter.check_at(249_999_999));
    assert!(limiter.check_at(250_000_000));
}

#[test]
fn wait_is_rounded_to_the_nearest_nanosecond() {
    // 333333333.3 rounds down, 166666666.6 rounds up
    let mut third = RateLimiter::new(3, 1);
    assert!(third.check_at(0));
    assert_eq!(third.time_until_available_at(0), 333_333_333);
    assert!(!third.check_at(333_333_333));
    assert!(third.check_at(333_333_334));
    let mut sixth = RateLimiter::new(6, 1);
    assert!(sixth.check_at(0));
    assert_eq!(sixth.time_until_available_at(0), 166_666_667);
    // 0.5 rounds to 0, 1.5 rounds to 2
    let mut even = RateLimiter::new(2_000_000_000, 1);
    assert!(even.check_at(0));
    assert_eq!(even.time_until_available_at(0), 0);
    let mut odd = RateLimiter::new(400_000_000, 1);
    assert!(odd.check_at(0));
    assert_eq!(odd.time_until_available_at(0), 2);
    assert_eq!(odd.time_until_available_at(1), 2);
}

#[test]
fn waiting_uses_the_clock() {
    let mut limiter = RateLimiter::new(1, 1);
    assert_eq!(limiter.time_until_available(), 0);
    assert!(limiter.check());
    let wait = limiter.time_until_available();
    assert!(wait > 0 && wait <= 1_000_000_000);
    assert!(limiter.token_parts() < 1_000_000_000);
    let first = limiter.now();
    let second = limiter.now();
    assert!(first <= second);
}

#[test]
fn zero_rate_never_refills() {
    let mut limiter = RateLimiter::new(0, 2);
    assert!(limiter.check_at(0));
    assert!(limiter.check_at(u128::MAX));
    assert!(!limiter.check_at(u128::MAX));
    let mut empty = RateLimiter::new(10, 0);
    assert!(!empty.check_at(100 * SECOND));
    assert_eq!(empty.tokens_at(200 * SECOND), 0);
}

#[test]
fn time_that_goes_back_adds_nothing() {
    let mut limiter = RateLimiter::new(10, 1);
    assert!(limiter.check_at(SECOND));
    assert_eq!(limiter.token_parts_at(0), 0);
}

#[test]
fn reset_at_a_given_time() {
    let mut limiter = RateLimiter::new(10, 3);
    for _ in 0..3 {
        assert!(limiter.check_at(0));
    }
    limiter.reset_at(5);
    assert_eq!(limiter.tokens_at(5), 3);
}

#[test]
fn readings_do_not_go_back() {
    let mut limiter = RateLimiter::new(10, 1);
    let day: u128 = 86_400_000_000_000;
    assert!(limiter.check_at(day));
    assert!(limiter.now() >= day);
    // Nothing is gained for time that has been counted already
    assert!(!limiter.check());
    assert!(limiter.now() >= day);
    assert_eq!(limiter.tokens(), 0);
}

#[test]
fn looking_in_between_allows_no_more() {
    let mut limiter = RateLimiter::new(10, 3);
    let mut allowed: u128 = 0;
    let mut now: u128 = 0;
    for step in 0..500u128 {
        now = step * 7_000_000;
        limiter.peek_at(now);
        limiter.tokens_at(now + 1);
        if limiter.check_at(now + 2) {
            allowed += 1;
        }
        limiter.time_until_available_at(now + 3);
    }
    assert!(allowed * 1_000_000_000 <= 3 * 1_000_000_000 + 10 * (now + 3));
    assert_eq!(allowed, 37);
}
