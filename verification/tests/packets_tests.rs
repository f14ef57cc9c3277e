use slv_rust::packet_types::{LLColor, LLFixed256, LLVariable1, LLVariable2, IPADDR, IPPORT};
use slv_rust::packets::{get_packet_info, get_packet_info_by_id, init_packet_registry, lookup_key, PacketFrequency, PacketInfo, PacketRegistry};

#[test]
fn address_and_port_encodings() {
    assert_eq!(IPADDR::new(192, 168, 1, 2).0, 0xC0A80102);
    let port = IPPORT::new(9000);
    assert_eq!(port.0, 9000u16.to_be());
    assert_eq!(port.to_host_order(), 9000);
}

#[test]
fn variable_strings() {
    let v = LLVariable1::from_string("hello");
    assert_eq!(v.data, b"hello".to_vec());
    assert_eq!(v.to_string().unwrap(), "hello");
    assert!(LLVariable1::new(vec![0xFF, 0xFE]).to_string().is_err());
    let w = LLVariable2::from_string("héllo");
    assert_eq!(w.data.len(), 6);
    assert_eq!(w.to_string().unwrap(), "héllo");
}

#[test]
fn fixed_strings_are_padded_and_read_to_nul() {
    let f = LLFixed256::from_string("Region");
    assert_eq!(f.data.len(), 256);
    assert_eq!(&f.data[..6], b"Region");
    assert!(f.data[6..].iter().all(|b| *b == 0));
    assert_eq!(f.to_string().unwrap(), "Region");
    let long = LLFixed256::new(vec![b'a'; 300]);
    assert_eq!(long.data.len(), 256);
    assert_eq!(long.to_string().unwrap().len(), 256);
    assert_eq!(LLColor::black(), LLColor::new(0, 0, 0, 255));
    assert_eq!(LLColor::white(), LLColor::new(255, 255, 255, 255));
}

#[test]
fn registry_lookup_by_key_and_id() {
    assert_eq!(lookup_key(PacketFrequency::High, 4), 4);
    assert_eq!(lookup_key(PacketFrequency::Medium, 4), 0x10004);
    assert_eq!(lookup_key(PacketFrequency::Low, 148), 0x20094);
    assert_eq!(lookup_key(PacketFrequency::Fixed, 0xFFFB), 0x3FFFB);
    let ack = PacketInfo { name: "PacketAck", id: 0xFFFB, frequency: PacketFrequency::Fixed, reliable: false, zerocoded: false, trusted: false };
    let chat = PacketInfo { name: "ChatFromViewer", id: 80, frequency: PacketFrequency::Low, reliable: true, zerocoded: true, trusted: false };
    let registry = init_packet_registry(&vec![ack, chat]);
    assert_eq!(get_packet_info(&registry, 0x3FFFB).map(|i| i.name), Some("PacketAck"));
    assert_eq!(get_packet_info_by_id(&registry, 80, PacketFrequency::Low).map(|i| i.name), Some("ChatFromViewer"));
    assert!(get_packet_info_by_id(&registry, 80, PacketFrequency::High).is_none());
    let mut r = PacketRegistry::new();
    assert!(r.get(1).is_none());
    r.register_info(chat);
    assert_eq!(r.get(lookup_key(PacketFrequency::Low, 80)), Some(&chat));
}
