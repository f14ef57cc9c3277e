use slv_rust::net_addr::SockAddr;
use slv_rust::session::{SessionInfo, SessionManager};
use slv_rust::sl_compatibility::Vec3Bits;

fn session() -> SessionInfo {
    SessionInfo {
        agent_id: *uuid::Uuid::new_v4().as_bytes(),
        session_id: *uuid::Uuid::new_v4().as_bytes(),
        secure_session_id: *uuid::Uuid::new_v4().as_bytes(),
        first_name: "Test".to_string(),
        last_name: "User".to_string(),
        circuit_code: 12345,
        simulator_address: SockAddr::v4(127, 0, 0, 1, 9000),
        look_at: Vec3Bits { x: 1.0f32.to_bits(), y: 0.0f32.to_bits(), z: 0.0f32.to_bits() },
        start_location: "last".to_string(),
        seed_capability: None,
        capabilities: None,
    }
}

#[test]
fn test_session_manager() {
    let mut manager = SessionManager::new();
    assert!(!manager.is_logged_in());
    assert!(manager.current_session().is_none());

    let session = session();

    manager.start_session(session.clone());
    assert!(manager.is_logged_in());
    assert_eq!(manager.agent_id(), Some(session.agent_id));

    manager.end_session();
    assert!(!manager.is_logged_in());
}

#[test]
fn full_name_joins_first_and_last() {
    assert_eq!(session().full_name(), "Test User");
}

#[test]
fn session_ids_come_from_the_current_session() {
    let mut manager = SessionManager::default();
    assert_eq!(manager.session_id(), None);
    let s = session();
    manager.start_session(s.clone());
    assert_eq!(manager.session_id(), Some(s.session_id));
    assert_eq!(manager.current_session().unwrap().circuit_code, 12345);
}
