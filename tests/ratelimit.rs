use pluralkit_api_edge::ratelimit::{RateDecision, RateLimiter, DEFAULT_LIMIT, DEFAULT_WINDOW_SECS};

#[test]
fn limiter_counts_per_caller_and_window() {
    let mut rl = RateLimiter::new(2, 10);
    assert_eq!(rl.limit(), 2);
    assert_eq!(rl.window_secs(), 10);
    assert_eq!(rl.check("a", 100), RateDecision::Allowed { remaining: 1 });
    assert_eq!(rl.check("a", 101), RateDecision::Allowed { remaining: 0 });
    assert_eq!(rl.check("a", 104), RateDecision::Limited { retry_after: 6 });
    assert_eq!(rl.check("b", 104), RateDecision::Allowed { remaining: 1 });
    assert_eq!(rl.check("a", 109), RateDecision::Limited { retry_after: 1 });
    assert_eq!(rl.check("a", 110), RateDecision::Allowed { remaining: 1 });
}

#[test]
fn limiter_with_zero_limit_refuses_everything() {
    let mut rl = RateLimiter::new(0, 5);
    assert_eq!(rl.check("x", 0), RateDecision::Limited { retry_after: 5 });
}

#[test]
fn limiter_keeps_window_when_clock_goes_back() {
    let mut rl = RateLimiter::new(1, 10);
    assert_eq!(rl.check("a", 50), RateDecision::Allowed { remaining: 0 });
    assert_eq!(rl.check("a", 40), RateDecision::Limited { retry_after: 10 });
}

#[test]
fn default_limits() {
    let mut rl = RateLimiter::new(DEFAULT_LIMIT, DEFAULT_WINDOW_SECS);
    assert_eq!(rl.check("a", 0), RateDecision::Allowed { remaining: DEFAULT_LIMIT - 1 });
}
