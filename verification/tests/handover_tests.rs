use slv_rust::error::NetworkError;
use slv_rust::handover::{simulator_info_from_enable, CrossingAction, RegionCrossingEvent, RegionCrossingManager, SimulatorInfo};
use slv_rust::net_addr::{IpAddress, SockAddr};
use slv_rust::packet_types::{IPADDR, IPPORT};
use slv_rust::state_machine::RegionCrossingState;

fn info(handle: u64) -> SimulatorInfo {
    SimulatorInfo {
        address: SockAddr::v4(10, 0, 0, 2, 13001),
        region_handle: handle,
        region_id: [7; 16],
        circuit_code: 99,
        seed_capability: None,
    }
}

#[test]
fn first_circuit_becomes_current_region() {
    let mut m = RegionCrossingManager::new([1; 16], [2; 16]);
    assert_eq!(m.current_region(), None);
    m.add_circuit(100);
    m.add_circuit(200);
    m.add_circuit(100);
    assert_eq!(m.current_region(), Some(100));
    assert_eq!(m.active_regions(), vec![100, 200]);
    assert!(m.has_circuit(200));
    assert!(!m.has_circuit(300));
}

#[test]
fn movement_needs_a_circuit() {
    let mut m = RegionCrossingManager::new([1; 16], [2; 16]);
    m.add_circuit(100);
    assert!(m.check_movement(100).is_ok());
    match m.check_movement(0x1_0000_0005) {
        Err(NetworkError::CircuitNotFound { id }) => assert_eq!(id, 5),
        other => panic!("unexpected {:?}", other),
    }
    m.add_circuit(200);
    assert!(matches!(m.finish_agent_movement(200), RegionCrossingEvent::MovementCompleted { region_handle: 200 }));
    assert_eq!(m.current_region(), Some(200));
}

#[test]
fn disconnecting_forgets_the_circuit() {
    let mut m = RegionCrossingManager::new([1; 16], [2; 16]);
    m.add_circuit(1);
    m.add_circuit(2);
    m.add_circuit(3);
    assert!(m.disconnect_from_region(2));
    assert!(!m.disconnect_from_region(2));
    assert_eq!(m.active_regions(), vec![1, 3]);
    assert_eq!(m.regions_other_than(3), vec![1]);
}

#[test]
fn a_full_crossing() {
    let mut m = RegionCrossingManager::new([1; 16], [2; 16]);
    m.add_circuit(100);
    // EnableSimulator asks for a crossing to start.
    let acts = m.handle_event(RegionCrossingEvent::EnableSimulatorReceived { simulator_info: info(200) }).unwrap();
    assert_eq!(acts.len(), 1);
    let next = match acts.into_iter().next().unwrap() {
        CrossingAction::Emit { event } => event,
        other => panic!("unexpected {:?}", other),
    };
    // Starting the crossing moves to Connecting but cannot create the circuit here.
    match m.handle_event(next) {
        Err(NetworkError::Other { reason }) => {
            assert_eq!(reason, "Circuit creation for region crossing not yet implemented")
        }
        other => panic!("unexpected {:?}", other),
    }
    m.add_circuit(200);
    let acts = m.handle_event(RegionCrossingEvent::ConnectionEstablished { region_handle: 200 }).unwrap();
    assert!(matches!(acts.as_slice(), [CrossingAction::SendCompleteAgentMovement { region_handle: 200 }]));
    let done = m.finish_agent_movement(200);
    let acts = m.handle_event(done).unwrap();
    assert!(matches!(acts.as_slice(), [CrossingAction::CloseCircuit { region_handle: 100 }]));
    assert_eq!(m.active_regions(), vec![200]);
    assert_eq!(m.current_region(), Some(200));
}

#[test]
fn refused_transitions_are_errors() {
    let mut m = RegionCrossingManager::new([1; 16], [2; 16]);
    match m.handle_event(RegionCrossingEvent::MovementCompleted { region_handle: 1 }) {
        Err(NetworkError::Other { reason }) => assert_eq!(reason, "Invalid state transition from Idle to Connected"),
        other => panic!("unexpected {:?}", other),
    }
}

#[test]
fn failed_crossings_drop_the_circuit() {
    let mut m = RegionCrossingManager::new([1; 16], [2; 16]);
    m.add_circuit(5);
    let acts = m.handle_event(RegionCrossingEvent::CrossingFailed { region_handle: 5, error: "boom".to_string() }).unwrap();
    assert!(matches!(acts.as_slice(), [CrossingAction::CloseCircuit { region_handle: 5 }]));
    assert!(m.active_regions().is_empty());
    // Failed to Failed is staying put: allowed, and nothing is left to close.
    let again = m.handle_event(RegionCrossingEvent::CrossingFailed { region_handle: 5, error: "boom".to_string() });
    assert!(again.unwrap().is_empty());
}

#[test]
fn missing_circuit_on_connection_is_reported() {
    let mut m = RegionCrossingManager::new([1; 16], [2; 16]);
    let _ = m.handle_event(RegionCrossingEvent::InitiateCrossing { simulator_info: info(9) });
    match m.handle_event(RegionCrossingEvent::ConnectionEstablished { region_handle: 9 }) {
        Err(NetworkError::CircuitNotFound { id }) => assert_eq!(id, 9),
        other => panic!("unexpected {:?}", other),
    }
    let _ = RegionCrossingState::MovingAgent;
}

#[test]
fn enable_simulator_gives_the_address() {
    let s = simulator_info_from_enable(&IPADDR::new(192, 168, 1, 2), &IPPORT::new(13005), 77);
    assert_eq!(s.region_handle, 77);
    assert_eq!(s.circuit_code, 0);
    assert!(s.seed_capability.is_none());
    assert_eq!(s.address.port, 13005);
    match s.address.ip {
        IpAddress::V4(o) => assert!(o == [192, 168, 1, 2] || o == [2, 1, 168, 192]),
        other => panic!("unexpected {:?}", other),
    }
}
