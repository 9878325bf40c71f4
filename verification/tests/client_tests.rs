use prehrajto_core::fetch::{FetchState, FetchStep, MAX_REQUESTS};
use prehrajto_core::retry::backoff_secs;
use prehrajto_core::{HttpFailure, PrehrajtoError, RateLimiter, RetryDecision, RetryState};

fn http(timeout: bool, connect: bool, status: Option<u16>) -> PrehrajtoError {
    PrehrajtoError::HttpError(HttpFailure {
        timeout,
        connect,
        status,
        message: String::from("failure"),
    })
}

#[test]
fn limiter_first_request_is_immediate() {
    let mut l = RateLimiter::new(500_000_000);
    assert_eq!(l.min_interval(), 500_000_000);
    assert_eq!(l.reserve(0), 0);
}

#[test]
fn limiter_spaces_requests() {
    let mut l = RateLimiter::new(100);
    assert_eq!(l.reserve(10), 0); // slot 10, next free 110
    assert_eq!(l.reserve(20), 90); // slot 110, next free 210
    assert_eq!(l.reserve(30), 180); // slot 210, next free 310
    assert_eq!(l.reserve(1000), 0); // slot 1000
    assert_eq!(l.reserve(1050), 50); // slot 1100
}

#[test]
fn limiter_saturates_at_clock_end() {
    let mut l = RateLimiter::new(10);
    assert_eq!(l.reserve(u64::MAX - 5), 0);
    assert_eq!(l.reserve(u64::MAX - 1), 1);
}

#[test]
fn retryable_errors() {
    assert!(PrehrajtoError::RateLimited.is_retryable());
    assert!(http(true, false, None).is_retryable());
    assert!(http(false, true, None).is_retryable());
    assert!(http(false, false, Some(503)).is_retryable());
    assert!(!http(false, false, Some(404)).is_retryable());
    assert!(!http(false, false, None).is_retryable());
    assert!(!PrehrajtoError::NotFound(String::from("u")).is_retryable());
    assert!(!PrehrajtoError::ParseError(String::from("p")).is_retryable());
    assert!(!PrehrajtoError::InvalidId(String::from("i")).is_retryable());
}

#[test]
fn backoff_doubles() {
    assert_eq!(backoff_secs(0), 1);
    assert_eq!(backoff_secs(1), 2);
    assert_eq!(backoff_secs(2), 4);
    assert_eq!(backoff_secs(63), 1u64 << 63);
}

#[test]
fn retries_until_budget_spent() {
    let mut r = RetryState::new(3);
    let mut pauses = Vec::new();
    loop {
        match r.on_outcome(Err(PrehrajtoError::RateLimited)) {
            RetryDecision::Retry { backoff_secs } => pauses.push(backoff_secs),
            RetryDecision::Finish(res) => {
                assert!(matches!(res, Err(PrehrajtoError::RateLimited)));
                break;
            }
        }
    }
    assert_eq!(pauses, vec![1, 2, 4]);
    assert_eq!(r.attempt_number(), 3);
}

#[test]
fn success_and_hard_errors_end_at_once() {
    let mut r = RetryState::new(3);
    match r.on_outcome(Ok(String::from("<html>"))) {
        RetryDecision::Finish(Ok(body)) => assert_eq!(body, "<html>"),
        _ => panic!("expected the body"),
    }
    let mut r = RetryState::new(3);
    match r.on_outcome(Err(PrehrajtoError::NotFound(String::from("x")))) {
        RetryDecision::Finish(Err(PrehrajtoError::NotFound(u))) => assert_eq!(u, "x"),
        _ => panic!("expected NotFound"),
    }
    let mut r = RetryState::new(0);
    assert!(matches!(
        r.on_outcome(Err(http(true, false, None))),
        RetryDecision::Finish(Err(PrehrajtoError::HttpError(_)))
    ));
}

#[test]
fn fetch_status_handling() {
    let mut s = FetchState::new(String::from("https://prehraj.to/a"));
    assert!(matches!(s.on_response(429, None), FetchStep::Fail(PrehrajtoError::RateLimited)));
    match s.on_response(404, None) {
        FetchStep::Fail(PrehrajtoError::NotFound(u)) => assert_eq!(u, "https://prehraj.to/a"),
        _ => panic!("expected NotFound"),
    }
    assert!(matches!(s.on_response(502, None), FetchStep::ServerError(502)));
    assert!(matches!(s.on_response(200, None), FetchStep::ReadBody));
    assert!(matches!(s.on_response(403, None), FetchStep::ReadBody));
    assert!(matches!(s.on_response(302, None), FetchStep::ReadBody));
    assert!(matches!(
        s.on_response(302, Some("https://x.premiumcdn.net/v.mp4")),
        FetchStep::ReadBody
    ));
    assert_eq!(s.followed_count(), 0);
}

#[test]
fn fetch_follows_site_redirects_up_to_the_limit() {
    let mut s = FetchState::new(String::from("https://prehraj.to/0"));
    let mut requests = 1;
    loop {
        match s.on_response(301, Some("https://prehraj.to/next")) {
            FetchStep::Follow => {
                assert_eq!(s.current_url(), "https://prehraj.to/next");
                requests += 1;
            }
            FetchStep::Fail(PrehrajtoError::ParseError(m)) => {
                assert_eq!(m, "Too many redirects");
                break;
            }
            _ => panic!("unexpected step"),
        }
    }
    assert_eq!(requests, MAX_REQUESTS);
    assert_eq!(s.followed_count(), MAX_REQUESTS - 1);
}

#[test]
fn limiter_serves_simultaneous_callers_in_turn() {
    let mut l = RateLimiter::new(250);
    assert_eq!(l.reserve(1000), 0);
    let waits: Vec<u64> = (0..4).map(|_| l.reserve(2000)).collect();
    assert_eq!(waits, vec![0, 250, 500, 750]);
}
