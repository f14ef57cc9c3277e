use slv_rust::message_codec::{DecodedMessage, MessageCodec};

fn header(flags: u8, seq: u32) -> Vec<u8> {
    let mut d = vec![flags];
    d.extend_from_slice(&seq.to_be_bytes());
    d.push(0);
    d
}

#[test]
fn short_and_unknown_packets() {
    assert_eq!(MessageCodec::decode(&[0; 6]).unwrap_err(), "Packet too short for message ID");
    let mut d = header(0, 1);
    d.extend_from_slice(&[0xFF, 0xFF, 0x12, 0x34]);
    assert_eq!(MessageCodec::decode(&d).unwrap_err(), "Unsupported or unknown message type");
}

#[test]
fn keep_alive_and_ack() {
    let mut d = header(0x40, 77);
    d.extend_from_slice(&[0xFF, 0xFF, 0xFF, 0xFB]);
    let (h, m) = MessageCodec::decode(&d).unwrap();
    assert_eq!((h.sequence_id, h.flags), (77, 0x40));
    assert!(matches!(m, DecodedMessage::KeepAlive));
    let mut a = header(0x10, 1);
    a.extend_from_slice(&9u32.to_be_bytes());
    match MessageCodec::decode(&a).unwrap().1 {
        DecodedMessage::Ack { sequence_id } => assert_eq!(sequence_id, 9),
        other => panic!("unexpected {:?}", other),
    }
}

#[test]
fn agent_messages_carry_uuids() {
    let mut d = header(0, 2);
    d.extend_from_slice(&[0xFF, 0xFF, 0x00, 0xF9]);
    d.extend_from_slice(&[0x11; 16]);
    d.extend_from_slice(&[0x22; 16]);
    match MessageCodec::decode(&d).unwrap().1 {
        DecodedMessage::AgentMovementComplete { agent_id, session_id } => {
            assert_eq!(agent_id, "11111111-1111-1111-1111-111111111111");
            assert_eq!(session_id, "22222222-2222-2222-2222-222222222222");
        }
        other => panic!("unexpected {:?}", other),
    }
    d.truncate(30);
    assert_eq!(MessageCodec::decode(&d).unwrap_err(), "Packet too short for AgentMovementComplete");
    let mut p = header(0, 3);
    p.extend_from_slice(&[0xFF, 0xFF, 0x00, 0x01, 1, 2, 3, 4]);
    assert_eq!(MessageCodec::decode(&p).unwrap_err(), "StartPingCheck not fully handled");
}

#[test]
fn region_handshake_is_parsed() {
    let mut d = header(0, 4);
    d.push(5);
    let mut body = vec![0u8; 222];
    body[0] = 7;
    body.push(2);
    body.extend_from_slice(b"v1");
    d.extend_from_slice(&body);
    match MessageCodec::decode(&d).unwrap().1 {
        DecodedMessage::RegionHandshake(rh) => assert_eq!(rh.region_flags, 7),
        other => panic!("unexpected {:?}", other),
    }
    d.truncate(100);
    assert_eq!(MessageCodec::decode(&d).unwrap_err(), "Failed to parse RegionHandshake");
}
