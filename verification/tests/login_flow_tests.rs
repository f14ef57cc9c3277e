use slv_rust::error::NetworkError;
use slv_rust::login_flow::{
    after_failed_attempt, all_addresses_failed, attempts_exhausted, classify_login_failure,
    fallback_simulator_addresses, login_retry_delay_ms, preferred_simulator_address, start_location_for_attempt,
    str_contains, RetryDecision,
};

#[test]
fn refusals_are_classified() {
    match classify_login_failure(Some("slave-connect-failure".to_string()), None) {
        NetworkError::SimulatorConnectionFailed { reason } => assert_eq!(reason, "slave-connect-failure"),
        other => panic!("unexpected {:?}", other),
    }
    match classify_login_failure(None, Some("Bad region name".to_string())) {
        NetworkError::SimulatorConnectionFailed { .. } => {}
        other => panic!("unexpected {:?}", other),
    }
    match classify_login_failure(Some("key".to_string()), Some("region".to_string())) {
        NetworkError::LoginRejected { reason } => assert_eq!(reason, "key"),
        other => panic!("unexpected {:?}", other),
    }
    match classify_login_failure(None, None) {
        NetworkError::LoginRejected { reason } => assert_eq!(reason, "Login failed"),
        other => panic!("unexpected {:?}", other),
    }
    assert!(str_contains("abcabd", "abd"));
    assert!(!str_contains("ab", "abc"));
    assert!(str_contains("x", ""));
}

#[test]
fn retries_change_location_and_back_off() {
    assert_eq!(start_location_for_attempt("uri:Region&1&2&3", 0), "uri:Region&1&2&3");
    assert_eq!(start_location_for_attempt("x", 1), "last");
    assert_eq!(start_location_for_attempt("x", 2), "home");
    assert_eq!(start_location_for_attempt("x", 7), "home");
    assert_eq!(login_retry_delay_ms(0), 1000);
    assert_eq!(login_retry_delay_ms(1), 2000);
    assert_eq!(login_retry_delay_ms(2), 4000);
    assert_eq!(login_retry_delay_ms(3), 8000);
    assert_eq!(login_retry_delay_ms(40), 8000);
    let sim = NetworkError::SimulatorConnectionFailed { reason: "x".to_string() };
    assert!(matches!(after_failed_attempt(0, 3, sim.clone()), RetryDecision::RetryAfter(1000)));
    assert!(matches!(after_failed_attempt(2, 3, sim), RetryDecision::GiveUp(NetworkError::SimulatorConnectionFailed { .. })));
    let rejected = NetworkError::LoginRejected { reason: "no".to_string() };
    assert!(matches!(after_failed_attempt(0, 3, rejected), RetryDecision::GiveUp(NetworkError::LoginRejected { .. })));
    match attempts_exhausted(3) {
        NetworkError::SimulatorConnectionFailed { reason } => assert_eq!(reason, "Failed to connect after 3 attempts"),
        other => panic!("unexpected {:?}", other),
    }
}

#[test]
fn simulator_addresses() {
    assert_eq!(
        preferred_simulator_address(Some("https://simhost-0a1b.agni.secondlife.io:12043/cap/abc"), 13005),
        Some("simhost-0a1b.agni.secondlife.io:13005".to_string())
    );
    assert_eq!(preferred_simulator_address(Some("not a url"), 13005), None);
    assert_eq!(preferred_simulator_address(None, 13005), None);
    assert_eq!(
        fallback_simulator_addresses("h"),
        vec!["h:9000", "h:9001", "h:9002", "h:12043", "h:13000", "h:13001"]
    );
    match all_addresses_failed("1.2.3.4:13000") {
        NetworkError::SimulatorConnectionFailed { reason } => {
            assert_eq!(reason, "Both primary (1.2.3.4:13000) and all fallback addresses failed")
        }
        other => panic!("unexpected {:?}", other),
    }
}
