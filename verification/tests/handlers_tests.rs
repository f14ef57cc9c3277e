use slv_rust::handlers::login_handlers::{AgentMovementCompleteHandler, ObjectUpdateHandler, RegionHandshakeHandler};
use slv_rust::handlers::region_handlers::KillObjectHandler;

#[test]
fn object_positions_are_big_endian_floats() {
    let mut data = Vec::new();
    data.extend_from_slice(&128.0f32.to_be_bytes());
    data.extend_from_slice(&64.5f32.to_be_bytes());
    data.extend_from_slice(&25.0f32.to_be_bytes());
    data.push(7);
    let p = ObjectUpdateHandler::extract_position_from_object_data(&data).unwrap();
    assert_eq!(f32::from_bits(p.x), 128.0);
    assert_eq!(f32::from_bits(p.y), 64.5);
    assert_eq!(f32::from_bits(p.z), 25.0);
    assert!(ObjectUpdateHandler::extract_position_from_object_data(&data[..11]).is_none());
}

#[test]
fn arrival_throttles_and_flags() {
    let d = AgentMovementCompleteHandler::throttle_data();
    assert_eq!(d.len(), 28);
    let values: Vec<f32> = d.chunks(4).map(|c| f32::from_le_bytes([c[0], c[1], c[2], c[3]])).collect();
    assert_eq!(values, vec![150000.0, 170000.0, 0.0, 0.0, 280000.0, 446000.0, 220000.0]);
    assert_eq!(AgentMovementCompleteHandler::control_flags_sequence(), vec![0, 0x4000_0000, 0]);
    let _ = RegionHandshakeHandler::new();
    let _ = KillObjectHandler::new();
}
