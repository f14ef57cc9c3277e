use slv_rust::error::NetworkError;
use slv_rust::handshake::{after_reliable, after_unreliable, attempt_timeout, first_auth_action, retry_delay, AuthAction, AuthOutcome, SecurityConfig};

#[test]
fn default_security_settings() {
    let c = SecurityConfig::default();
    assert_eq!(c.base_auth_timeout_secs, 10);
    assert_eq!(c.max_auth_attempts, 5);
    assert!(!c.require_reliable_auth);
    assert!(matches!(first_auth_action(&c), AuthAction::SendUnreliable));
}

#[test]
fn backoff_doubles_up_to_four_times() {
    assert_eq!(attempt_timeout(10, 1), 20);
    assert_eq!(attempt_timeout(10, 2), 40);
    assert_eq!(attempt_timeout(10, 3), 80);
    assert_eq!(attempt_timeout(10, 7), 80);
    assert_eq!(retry_delay(1), 1000);
    assert_eq!(retry_delay(2), 2000);
    assert_eq!(retry_delay(5), 4000);
}

#[test]
fn reliable_attempts_retry_then_fail() {
    let c = SecurityConfig { require_reliable_auth: true, max_auth_attempts: 2, ..SecurityConfig::default() };
    match first_auth_action(&c) {
        AuthAction::SendReliable { attempt, timeout_secs } => {
            assert_eq!(attempt, 1);
            assert_eq!(timeout_secs, 20);
        }
        other => panic!("unexpected {:?}", other),
    }
    match after_reliable(&c, 1, &AuthOutcome::TimedOut) {
        AuthAction::RetryAfter { delay_ms, attempt, timeout_secs } => {
            assert_eq!((delay_ms, attempt, timeout_secs), (1000, 2, 40));
        }
        other => panic!("unexpected {:?}", other),
    }
    match after_reliable(&c, 2, &AuthOutcome::TimedOut) {
        AuthAction::Fail(NetworkError::AuthenticationFailed { reason }) => {
            assert_eq!(reason, "UseCircuitCode timed out after 2 attempts - likely firewall/network issue")
        }
        other => panic!("unexpected {:?}", other),
    }
    match after_reliable(&c, 2, &AuthOutcome::SendFailed("io".to_string())) {
        AuthAction::Fail(NetworkError::AuthenticationFailed { reason }) => {
            assert_eq!(reason, "UseCircuitCode failed after 2 attempts: io")
        }
        other => panic!("unexpected {:?}", other),
    }
    assert!(matches!(after_reliable(&c, 1, &AuthOutcome::Sent), AuthAction::Proceed));
    let none = SecurityConfig { require_reliable_auth: true, max_auth_attempts: 0, ..SecurityConfig::default() };
    assert!(matches!(first_auth_action(&none), AuthAction::Proceed));
}

#[test]
fn unreliable_send_outcomes() {
    assert!(matches!(after_unreliable(&AuthOutcome::Sent), AuthAction::Proceed));
    match after_unreliable(&AuthOutcome::SendFailed("down".to_string())) {
        AuthAction::Fail(NetworkError::AuthenticationFailed { reason }) => {
            assert_eq!(reason, "Unreliable UseCircuitCode failed: down")
        }
        other => panic!("unexpected {:?}", other),
    }
}
