use crablet::retry::{is_retryable_error, text_is_retryable, RetryConfig};

#[test]
fn classifies_errors_correctly() {
    assert!(is_retryable_error(&anyhow::Error::msg("connection timed out")));
    assert!(is_retryable_error(&anyhow::Error::msg("OpenAI API returned error: 503 Service Unavailable")));
    assert!(is_retryable_error(&anyhow::Error::msg("OpenAI API returned error: 429 Too Many Requests")));
    assert!(!is_retryable_error(&anyhow::Error::msg("OpenAI API returned error: 401 Unauthorized")));
    assert!(!is_retryable_error(&anyhow::Error::msg("OpenAI API returned error: 400 Bad Request")));
    assert!(!is_retryable_error(&anyhow::Error::msg("invalid api key")));
}

#[test]
fn cause_chain_is_inspected() {
    let err = anyhow::Error::msg("Forbidden by upstream").context("request failed");
    assert!(!is_retryable_error(&err));
    let transient = anyhow::Error::msg("reset by peer").context("request failed");
    assert!(is_retryable_error(&transient));
}

#[test]
fn marker_check_expects_lowercase_text() {
    assert!(!text_is_retryable("permission denied for model"));
    assert!(text_is_retryable("Permission Denied"));
}

#[test]
fn backoff_doubles_and_is_capped() {
    let config = RetryConfig { max_retries: 5, base_delay: 100, max_delay: 1_000 };
    // base * 2^attempt, capped, plus (base / 2) * (attempt % 3) / 3, capped again
    assert_eq!(config.delay_for(0), 100);
    assert_eq!(config.delay_for(1), 200 + 16);
    assert_eq!(config.delay_for(2), 400 + 33);
    assert_eq!(config.delay_for(3), 800);
    assert_eq!(config.delay_for(4), 1_000);
    assert_eq!(config.delay_for(40), 1_000);
    let tight = RetryConfig { max_retries: 3, base_delay: 1_000, max_delay: 1_000 };
    assert_eq!(tight.delay_for(1), 1_000);
    assert!((0..50).all(|a| tight.delay_for(a) <= 1_000));
}

#[test]
fn default_backoff() {
    let config = RetryConfig::default();
    assert_eq!(config.max_retries, 3);
    assert_eq!(config.delay_for(0), 250);
    assert_eq!(config.delay_for(5), 8_000);
}

#[test]
fn retry_decision_stops_at_limit_or_on_fatal_errors() {
    let config = RetryConfig { max_retries: 2, base_delay: 1, max_delay: 5 };
    assert_eq!(config.retry_delay(0, true), Some(1));
    assert_eq!(config.retry_delay(1, true), Some(2));
    assert_eq!(config.retry_delay(2, true), None);
    assert_eq!(config.retry_delay(0, false), None);
}
