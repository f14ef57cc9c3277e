use slv_rust::state_machine::{RegionCrossingState, RegionCrossingStateMachine};

#[test]
fn test_initial_state() {
    let sm = RegionCrossingStateMachine::new();
    assert_eq!(sm.current_state(), RegionCrossingState::Idle);
    assert_eq!(sm.previous_state(), None);
    assert_eq!(sm.transition_count(), 0);
    assert!(sm.is_stable());
    assert!(!sm.is_crossing());
    assert!(!sm.is_failed());
}

#[test]
fn test_valid_transitions() {
    let mut sm = RegionCrossingStateMachine::new();

    assert!(sm.transition_to(RegionCrossingState::Connecting).is_ok());
    assert_eq!(sm.current_state(), RegionCrossingState::Connecting);
    assert!(sm.is_crossing());

    assert!(sm.transition_to(RegionCrossingState::MovingAgent).is_ok());
    assert_eq!(sm.current_state(), RegionCrossingState::MovingAgent);
    assert!(sm.is_crossing());

    assert!(sm.transition_to(RegionCrossingState::Connected).is_ok());
    assert_eq!(sm.current_state(), RegionCrossingState::Connected);
    assert!(sm.is_stable());
    assert!(!sm.is_crossing());
}

#[test]
fn test_invalid_transitions() {
    let mut sm = RegionCrossingStateMachine::new();

    assert!(sm.transition_to(RegionCrossingState::MovingAgent).is_err());

    assert!(sm.transition_to(RegionCrossingState::Connected).is_err());
}

#[test]
fn test_failure_transitions() {
    let mut sm = RegionCrossingStateMachine::new();

    assert!(sm.transition_to(RegionCrossingState::Connecting).is_ok());
    assert!(sm.transition_to(RegionCrossingState::Failed).is_ok());
    assert!(sm.is_failed());

    assert!(sm.transition_to(RegionCrossingState::Idle).is_ok());
    assert!(sm.is_stable());
}

#[test]
fn test_state_machine_reset() {
    let mut sm = RegionCrossingStateMachine::new();

    sm.transition_to(RegionCrossingState::Connecting).unwrap();
    sm.transition_to(RegionCrossingState::MovingAgent).unwrap();

    let old_count = sm.transition_count();
    sm.reset();

    assert_eq!(sm.current_state(), RegionCrossingState::Idle);
    assert_eq!(sm.previous_state(), Some(RegionCrossingState::MovingAgent));
    assert_eq!(sm.transition_count(), old_count + 1);
}

#[test]
fn refused_transition_leaves_machine_unchanged_and_names_states() {
    let mut sm = RegionCrossingStateMachine::new();
    let err = sm.transition_to(RegionCrossingState::Connected).unwrap_err();
    match err {
        slv_rust::error::NetworkError::Other { reason } => {
            assert_eq!(reason, "Invalid state transition from Idle to Connected")
        }
        other => panic!("unexpected error {:?}", other),
    }
    assert_eq!(sm.current_state(), RegionCrossingState::Idle);
    assert_eq!(sm.transition_count(), 0);
    assert_eq!(sm.previous_state(), None);
}

#[test]
fn every_state_can_fail_and_return_to_idle() {
    let states = [
        RegionCrossingState::Idle,
        RegionCrossingState::Connecting,
        RegionCrossingState::MovingAgent,
        RegionCrossingState::Connected,
        RegionCrossingState::Failed,
    ];
    for s in states {
        let mut sm = RegionCrossingStateMachine::new();
        match s {
            RegionCrossingState::Idle => {}
            RegionCrossingState::Connecting => sm.transition_to(s).unwrap(),
            RegionCrossingState::MovingAgent => {
                sm.transition_to(RegionCrossingState::Connecting).unwrap();
                sm.transition_to(s).unwrap();
            }
            RegionCrossingState::Connected => {
                sm.transition_to(RegionCrossingState::Connecting).unwrap();
                sm.transition_to(RegionCrossingState::MovingAgent).unwrap();
                sm.transition_to(s).unwrap();
            }
            RegionCrossingState::Failed => sm.transition_to(s).unwrap(),
        }
        assert!(sm.can_transition_to(RegionCrossingState::Failed));
        assert!(sm.can_transition_to(RegionCrossingState::Idle));
        assert!(sm.can_transition_to(s));
        let classes = [sm.is_crossing(), sm.is_stable(), sm.is_failed()];
        assert_eq!(classes.iter().filter(|b| **b).count(), 1);
    }
}

#[test]
fn descriptions_and_statistics() {
    let mut sm = RegionCrossingStateMachine::new();
    assert_eq!(sm.state_description(), "Not crossing regions");
    sm.transition_to(RegionCrossingState::Connecting).unwrap();
    assert_eq!(sm.state_description(), "Establishing connection to new simulator");
    let stats = sm.statistics();
    assert_eq!(stats.current_state, RegionCrossingState::Connecting);
    assert_eq!(stats.transition_count, 1);
    assert!(stats.is_crossing && !stats.is_stable && !stats.is_failed);
    assert_eq!(RegionCrossingState::MovingAgent.name(), "MovingAgent");
    assert_eq!(RegionCrossingState::default(), RegionCrossingState::Idle);
}
