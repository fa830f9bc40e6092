use crablet::breaker::{fallback_step, FallbackAction, FallbackEvent, FallbackState};
use crablet::breaker::{CircuitBreaker, CircuitState, LlmError};

#[test]
fn breaker_opens_after_threshold_and_recovers() {
    let mut b = CircuitBreaker::default();
    assert_eq!(b.state, CircuitState::Closed);
    for _ in 0..4 {
        b.record_failure(true, 5);
    }
    assert_eq!(b.state, CircuitState::Closed);
    b.record_failure(true, 5);
    assert_eq!(b.state, CircuitState::Open);
    assert!(!b.check_available(false));
    assert!(b.check_available(true));
    assert_eq!(b.state, CircuitState::HalfOpen);
    b.record_success();
    assert_eq!(b.state, CircuitState::Closed);
    assert_eq!(b.consecutive_failures, 0);
    assert_eq!(b.total_requests, 6);
    assert_eq!(b.successful_requests + b.failed_requests, b.total_requests);
}

#[test]
fn disabled_breaker_never_opens() {
    let mut b = CircuitBreaker::new();
    for _ in 0..10 {
        b.record_failure(false, 1);
    }
    assert_eq!(b.state, CircuitState::Closed);
    assert!(b.check_available(false));
}

#[test]
fn reset_closes_breaker() {
    let mut b = CircuitBreaker::new();
    b.record_failure(true, 1);
    assert_eq!(b.state, CircuitState::Open);
    b.reset();
    assert_eq!(b.state, CircuitState::Closed);
    assert_eq!(b.consecutive_failures, 0);
    assert_eq!(b.failed_requests, 1);
}

#[test]
fn error_messages() {
    assert_eq!(LlmError::Timeout.to_string(), "Request timeout");
    assert_eq!(LlmError::ConfigError("bad".to_string()).to_string(), "Config error: bad");
    assert_eq!(LlmError::AllModelsFailed.to_string(), "All models failed");
}

#[test]
fn fallback_tries_models_in_order() {
    let s = FallbackState { current: 0, models: 3 };
    let (s, a) = fallback_step(s, FallbackEvent::Start);
    assert_eq!(a, FallbackAction::Check(0));
    let (s, a) = fallback_step(s, FallbackEvent::Unavailable);
    assert_eq!(a, FallbackAction::Check(1));
    let (s, a) = fallback_step(s, FallbackEvent::Available);
    assert_eq!(a, FallbackAction::Try(1));
    let (s, a) = fallback_step(s, FallbackEvent::Failed);
    assert_eq!(a, FallbackAction::Check(2));
    let (_, a) = fallback_step(s, FallbackEvent::Answered);
    assert_eq!(a, FallbackAction::Done);
    let (_, a) = fallback_step(s, FallbackEvent::Failed);
    assert_eq!(a, FallbackAction::AllFailed);
    let none = FallbackState { current: 0, models: 0 };
    assert_eq!(fallback_step(none, FallbackEvent::Start).1, FallbackAction::AllFailed);
}
