use rs_query::executor::{decide_after_fetch, failure_state, should_retry, FetchDecision};
use rs_query::{Duration, QueryError, QueryState, RetryConfig};

#[test]
fn test_should_retry_network() {
    assert!(should_retry(
        &QueryError::Network("err".to_string()),
        &RetryConfig::default()
    ));
}

#[test]
fn test_should_retry_timeout() {
    assert!(should_retry(
        &QueryError::Timeout(Duration::from_secs(1)),
        &RetryConfig::default()
    ));
}

#[test]
fn test_should_not_retry_custom() {
    assert!(!should_retry(
        &QueryError::custom("err"),
        &RetryConfig::default()
    ));
}

#[test]
fn test_should_not_retry_without_retries() {
    assert!(!should_retry(&QueryError::network("err"), &RetryConfig::new(0)));
}

#[test]
fn test_decide_success() {
    let config = RetryConfig::new(3);
    match decide_after_fetch(&config, 0, Ok::<String, QueryError>("data".to_string())) {
        FetchDecision::Succeed(d) => assert_eq!(d, "data"),
        _ => panic!("expected success"),
    }
}

#[test]
fn test_decide_retry_with_backoff() {
    let config = RetryConfig::new(3).base_delay(Duration::from_millis(100));
    match decide_after_fetch::<String>(&config, 0, Err(QueryError::network("x"))) {
        FetchDecision::RetryAfter(d) => assert_eq!(d, Duration::from_millis(100)),
        _ => panic!("expected retry"),
    }
    match decide_after_fetch::<String>(&config, 2, Err(QueryError::network("x"))) {
        FetchDecision::RetryAfter(d) => assert_eq!(d, Duration::from_millis(400)),
        _ => panic!("expected retry"),
    }
}

#[test]
fn test_decide_gives_up_after_max_retries() {
    let config = RetryConfig::new(2);
    match decide_after_fetch::<String>(&config, 2, Err(QueryError::network("persistent"))) {
        FetchDecision::Fail(e) => assert_eq!(e, QueryError::network("persistent")),
        _ => panic!("expected failure"),
    }
}

#[test]
fn test_decide_no_retry_on_custom_error() {
    let config = RetryConfig::new(3);
    match decide_after_fetch::<String>(&config, 0, Err(QueryError::custom("not retryable"))) {
        FetchDecision::Fail(e) => assert_eq!(e, QueryError::custom("not retryable")),
        _ => panic!("expected failure"),
    }
}

#[test]
fn test_decide_cancelled_ends_run() {
    let config = RetryConfig::new(3);
    match decide_after_fetch::<String>(&config, 0, Err(QueryError::Cancelled)) {
        FetchDecision::Fail(e) => assert_eq!(e, QueryError::Cancelled),
        _ => panic!("expected failure"),
    }
}

#[test]
fn test_failure_state_keeps_stale_data() {
    let s = failure_state(QueryError::Cancelled, Some("old".to_string()));
    assert!(s.is_error());
    assert_eq!(s.data(), Some(&"old".to_string()));
    let s: QueryState<String> = failure_state(QueryError::Cancelled, None);
    assert_eq!(s.data(), None);
}
