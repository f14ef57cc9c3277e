use std::time::Instant;
use slv_rust::packets::{PacketFrequency, PacketWrapper};
use slv_rust::reliability::Acknowledger;

fn wrapper(sequence: u32) -> PacketWrapper {
    PacketWrapper {
        data: vec![1, 2, 3],
        reliable: true,
        resent: false,
        sequence,
        packet_id: 3,
        frequency: PacketFrequency::Low,
        embedded_acks: vec![7],
    }
}

#[test]
fn duplicates_are_spotted_within_the_window() {
    let mut a = Acknowledger::new();
    assert!(a.is_sequence_new(1));
    assert!(!a.is_sequence_new(1));
    for s in 2..=257u32 {
        assert!(a.is_sequence_new(s));
    }
    // 1 has left the window of 256.
    assert!(a.is_sequence_new(1));
    assert!(!a.is_sequence_new(257));
}

#[test]
fn acknowledgements_are_queued_and_taken() {
    let mut a = Acknowledger::new();
    a.queue_ack(5);
    a.queue_ack(9);
    assert_eq!(a.take_pending_acks(), vec![5, 9]);
    assert!(a.take_pending_acks().is_empty());
}

#[test]
fn acknowledged_messages_are_resolved_once() {
    let mut a = Acknowledger::new();
    a.add_pending_reliable(10, wrapper(10), Instant::now());
    assert!(a.handle_ack(10));
    assert!(!a.handle_ack(10));
    assert!(!a.handle_ack(11));
}

#[test]
fn retransmission_is_bounded() {
    let mut a = Acknowledger::new();
    let now = Instant::now();
    a.add_pending_reliable(1, wrapper(1), now);
    a.add_pending_reliable(2, wrapper(2), now);
    let out = a.get_retransmits(&vec![1], now, 2);
    assert_eq!(out.len(), 1);
    assert_eq!(out[0].0, 1);
    assert!(out[0].1.resent);
    assert_eq!(out[0].1.data, vec![1, 2, 3]);
    assert_eq!(out[0].1.embedded_acks, vec![7]);
    assert_eq!(a.get_retransmits(&vec![1], now, 2).len(), 1);
    // Resent twice already: given up.
    assert!(a.get_retransmits(&vec![1, 2], now, 2).iter().all(|(s, _)| *s == 2));
    assert!(!a.handle_ack(1));
    assert!(a.handle_ack(2));
}
