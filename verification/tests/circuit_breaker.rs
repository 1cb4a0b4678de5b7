//! The circuit breaker.
use krust_operator::types::{CircuitBreaker, CircuitState};

#[test]
fn test_circuit_breaker_opens() {
    let mut cb = CircuitBreaker::new(3, 2);
    cb.record_failure();
    cb.record_failure();
    assert!(!cb.is_open());
    cb.record_failure();
    assert!(cb.is_open());
}

#[test]
fn test_circuit_breaker_half_open() {
    let mut cb = CircuitBreaker::new(3, 2);
    cb.record_failure();
    cb.record_failure();
    cb.record_failure();
    assert!(cb.is_open());
    cb.manual_reset();
    assert_eq!(cb.state, CircuitState::HalfOpen);
    cb.record_success();
    assert_eq!(cb.state, CircuitState::HalfOpen);
    cb.record_success();
    assert_eq!(cb.state, CircuitState::Closed);
}

#[test]
fn test_circuit_breaker_success_resets() {
    let mut cb = CircuitBreaker::new(3, 2);
    cb.record_failure();
    cb.record_failure();
    cb.record_success();
    assert_eq!(cb.consecutive_failures, 0);
    assert!(!cb.is_open());
}

#[test]
fn a_success_does_not_close_an_open_breaker() {
    let mut cb = CircuitBreaker::new(1, 1);
    cb.record_failure();
    assert!(cb.is_open());
    cb.record_success();
    assert!(cb.is_open());
    cb.manual_reset();
    assert!(!cb.is_open());
    cb.record_success();
    assert_eq!(cb.state, CircuitState::Closed);
}

#[test]
fn a_half_open_breaker_counts_failures_anew() {
    let mut cb = CircuitBreaker::new(2, 2);
    cb.record_failure();
    cb.record_failure();
    cb.manual_reset();
    assert_eq!(cb.consecutive_failures, 0);
    cb.record_failure();
    assert_eq!(cb.state, CircuitState::HalfOpen);
    cb.record_failure();
    assert_eq!(cb.state, CircuitState::Open);
}
