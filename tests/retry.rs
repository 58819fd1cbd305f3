use geocode_cache::errors::{LookupError, SerializeError};
use geocode_cache::provider::{geocode_request, reverse_geocode_request};
use geocode_cache::keys::{Address, Coords};
use geocode_cache::retry::{parse_retry_after, HttpOutcome, RateLimitRetry, RetryStep};

fn response(status: u16, retry_after: Option<&str>, body: &str) -> HttpOutcome {
    HttpOutcome::Response {
        status,
        retry_after: retry_after.map(|s| s.to_string()),
        body: body.to_string(),
    }
}

#[test]
fn retry_after_parsing() {
    assert_eq!(parse_retry_after("2"), Some(2));
    assert_eq!(parse_retry_after("0"), Some(0));
    assert_eq!(parse_retry_after("120"), Some(120));
    assert_eq!(parse_retry_after(""), None);
    assert_eq!(parse_retry_after("2.5"), None);
    assert_eq!(parse_retry_after(" 2"), None);
    assert_eq!(parse_retry_after("-1"), None);
    assert_eq!(parse_retry_after("Wed, 21 Oct 2015 07:28:00 GMT"), None);
    assert_eq!(parse_retry_after("18446744073709551615"), Some(u64::MAX));
    assert_eq!(parse_retry_after("18446744073709551616"), None);
    assert_eq!(parse_retry_after("99999999999999999999x"), None);
}

#[test]
fn rate_limit_waits_then_exhausts() {
    let max = 3;
    let mut l = RateLimitRetry::new(max);
    for k in 0..max {
        assert_eq!(l.check_budget(), None);
        assert_eq!(l.on_outcome(response(429, Some("2"), "slow down")), RetryStep::Wait(2));
        assert_eq!(l.attempts, k + 1);
    }
    assert_eq!(l.check_budget(), Some(LookupError::MaxRetriesExceeded));
}

#[test]
fn server_error_fails_at_once() {
    let mut l = RateLimitRetry::new(2);
    let step = l.on_outcome(response(500, None, "internal"));
    assert_eq!(
        step,
        RetryStep::Fail(LookupError::ProviderError { status: 500, body: "internal".to_string() })
    );
    assert_eq!(l.attempts, 0);
    let step = l.on_outcome(response(500, Some("3"), "internal"));
    assert!(matches!(step, RetryStep::Fail(LookupError::ProviderError { status: 500, .. })));
}

#[test]
fn rate_limit_without_header_fails() {
    let mut l = RateLimitRetry::new(2);
    assert_eq!(
        l.on_outcome(response(429, None, "too many")),
        RetryStep::Fail(LookupError::ProviderError { status: 429, body: "too many".to_string() })
    );
    assert_eq!(
        l.on_outcome(response(429, Some("soon"), "too many")),
        RetryStep::Fail(LookupError::ProviderError { status: 429, body: "too many".to_string() })
    );
    assert_eq!(l.attempts, 0);
}

#[test]
fn success_is_accepted() {
    let mut l = RateLimitRetry::new(1);
    assert_eq!(l.on_outcome(response(200, None, "{\"items\":[]}")), RetryStep::Accept);
    assert_eq!(l.on_outcome(response(204, Some("5"), "")), RetryStep::Accept);
}

#[test]
fn transport_failure_fails() {
    let mut l = RateLimitRetry::new(1);
    assert_eq!(
        l.on_outcome(HttpOutcome::Transport("connection refused".to_string())),
        RetryStep::Fail(LookupError::Transport("connection refused".to_string()))
    );
}

#[test]
fn zero_budget_fails_before_any_attempt() {
    let l = RateLimitRetry::new(0);
    assert_eq!(l.check_budget(), Some(LookupError::MaxRetriesExceeded));
}

#[test]
fn error_messages() {
    assert_eq!(LookupError::MaxRetriesExceeded.message(), "Maximum number of retries reached");
    let e = LookupError::ProviderError { status: 400, body: "bad query".to_string() };
    assert_eq!(e.message(), "bad query");
    assert_eq!(e.to_serialize_error().msg, "bad query");
    assert_eq!(SerializeError::new_string("x".to_string()).msg, "x");
}

#[test]
fn forward_request_params() {
    let r = geocode_request(&"KEY".to_string(), &Address::new(&"Main St".to_string()));
    assert_eq!(r.url, "https://geocode.search.hereapi.com/v1/geocode");
    assert_eq!(
        r.params,
        vec![("apiKey".to_string(), "KEY".to_string()), ("q".to_string(), "Main St".to_string())]
    );
}

#[test]
fn reverse_request_params() {
    let r = reverse_geocode_request(&"KEY".to_string(), &Coords::new(515_033_640, -1_276));
    assert_eq!(r.url, "https://geocode.search.hereapi.com/v1/revgeocode");
    assert_eq!(
        r.params,
        vec![
            ("apiKey".to_string(), "KEY".to_string()),
            ("at".to_string(), "51.5033640,-0.0001276".to_string())
        ]
    );
}
