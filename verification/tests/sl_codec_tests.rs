use slv_rust::sl_compatibility::{HandshakeMessage, SLMessageCodec};

#[test]
fn debug_sample_survives_round_trip() {
    let (header, message) = SLMessageCodec::test_debug_messages().expect("round trip");
    assert_eq!(header.sequence_id, 12345);
    assert_eq!(header.flags, 0x40);
    match message {
        HandshakeMessage::UseCircuitCode { agent_id, session_id, circuit_code } => {
            assert_eq!(agent_id, "84c4017d-f3a1-4565-837d-23a67ad0ebd7");
            assert_eq!(session_id, "12345678-1234-1234-1234-123456789012");
            assert_eq!(circuit_code, 98765);
        }
        _ => panic!("expected UseCircuitCode"),
    }
}
