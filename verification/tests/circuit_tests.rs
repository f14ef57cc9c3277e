use std::time::{Duration, Instant};
use slv_rust::circuit::{
    check_can_send_reliable, ping_state_transition, same_state, state_change_event, CircuitEvent, CircuitState,
};
use slv_rust::error::NetworkError;
use slv_rust::net_addr::SockAddr;
use slv_rust::packets::{PacketFrequency, PacketWrapper};
use slv_rust::ping::{ConnectionHealth, PingTracker};
use slv_rust::reliability::{incoming_packet_id, Acknowledger};

fn wrapper(sequence: u32, reliable: bool, embedded_acks: Vec<u32>) -> PacketWrapper {
    PacketWrapper {
        data: vec![0],
        reliable,
        resent: false,
        sequence,
        packet_id: 2,
        frequency: PacketFrequency::Medium,
        embedded_acks,
    }
}

fn wait_ms(ms: u64) {
    let start = Instant::now();
    while start.elapsed() < Duration::from_millis(ms) {}
}

fn healthy() -> ConnectionHealth {
    ConnectionHealth { loss_failures: 0, loss_window: 10, avg_rtt_ms: 80, is_degraded: false }
}

#[test]
fn short_datagrams_are_refused() {
    let mut a = Acknowledger::new();
    match a.handle_incoming_packet(&[0x40, 1, 0, 0]) {
        Err(NetworkError::Transport { reason }) => assert_eq!(reason, "Packet too short for header"),
        other => panic!("unexpected {:?}", other),
    }
    assert!(a.take_pending_acks().is_empty());
}

#[test]
fn reliable_datagrams_are_acknowledged_once() {
    let mut a = Acknowledger::new();
    let datagram = [0x40, 0x2A, 0x00, 0x00, 0x00, 0x00, 0x05];
    assert_eq!(a.handle_incoming_packet(&datagram).unwrap(), Some(5));
    assert_eq!(a.handle_incoming_packet(&datagram).unwrap(), Some(5));
    assert_eq!(a.take_pending_acks(), vec![42]);
}

#[test]
fn unreliable_datagrams_are_not_acknowledged() {
    let mut a = Acknowledger::new();
    assert_eq!(a.handle_incoming_packet(&[0x00, 1, 0, 0, 0, 0]).unwrap(), None);
    assert!(a.take_pending_acks().is_empty());
}

#[test]
fn message_numbers_are_read_from_the_header() {
    assert_eq!(incoming_packet_id(&[0, 0, 0, 0, 0, 0]), None);
    assert_eq!(incoming_packet_id(&[0, 0, 0, 0, 0, 0, 9]), Some(9));
    assert_eq!(incoming_packet_id(&[0, 0, 0, 0, 0, 0xFF, 0x34, 0x12, 0xFF, 0xFF]), Some(0x1234));
    assert_eq!(incoming_packet_id(&[0, 0, 0, 0, 0, 0xFF, 0x34, 0x12]), Some(0x34));
}

#[test]
fn injected_duplicates_are_dropped() {
    let mut a = Acknowledger::new();
    assert_eq!(a.inject_packet(&wrapper(3, true, vec![])), Some(65538));
    assert_eq!(a.inject_packet(&wrapper(3, true, vec![])), None);
    assert_eq!(a.take_pending_acks(), vec![3]);
    // Unreliable messages are always passed on.
    assert_eq!(a.inject_packet(&wrapper(3, false, vec![])), Some(65538));
}

#[test]
fn embedded_acknowledgements_resolve_pending_messages() {
    let mut a = Acknowledger::new();
    a.add_pending_reliable(10, wrapper(10, true, vec![]), Instant::now());
    a.add_pending_reliable(11, wrapper(11, true, vec![]), Instant::now());
    assert!(a.inject_packet(&wrapper(1, false, vec![10])).is_some());
    assert!(!a.handle_ack(10));
    assert!(a.handle_ack(11));
}

#[test]
fn first_pending_is_acknowledged() {
    let mut a = Acknowledger::new();
    assert!(!a.acknowledge_first_pending());
    a.add_pending_reliable(4, wrapper(4, true, vec![]), Instant::now());
    a.add_pending_reliable(5, wrapper(5, true, vec![]), Instant::now());
    assert!(a.acknowledge_first_pending());
    assert!(!a.handle_ack(4));
    assert!(a.handle_ack(5));
}

#[test]
fn handle_acks_resolves_each() {
    let mut a = Acknowledger::new();
    a.add_pending_reliable(1, wrapper(1, true, vec![]), Instant::now());
    a.add_pending_reliable(2, wrapper(2, true, vec![]), Instant::now());
    a.add_pending_reliable(3, wrapper(3, true, vec![]), Instant::now());
    a.handle_acks(&vec![1, 3, 99]);
    assert!(!a.handle_ack(1));
    assert!(a.handle_ack(2));
    assert!(!a.handle_ack(3));
}

#[test]
fn ping_numbers_start_at_one_and_skip_zero() {
    let mut t = PingTracker::new();
    assert_eq!(t.start_ping(), 1);
    assert_eq!(t.start_ping(), 2);
    for _ in 3..=255u32 {
        t.start_ping();
    }
    assert_eq!(t.start_ping(), 1);
    let (_, sent, _, outstanding) = t.get_ping_stats();
    assert_eq!(sent, 256);
    assert_eq!(outstanding, 255);
}

#[test]
fn completed_pings_measure_round_trips() {
    let mut t = PingTracker::new();
    let id = t.start_ping();
    assert_eq!(t.complete_ping(id + 1), None);
    let rtt = t.complete_ping(id).expect("outstanding ping");
    assert_eq!(t.complete_ping(id), None);
    let (last, sent, timed_out, outstanding) = t.get_ping_stats();
    assert_eq!(last, Some(rtt));
    assert_eq!((sent, timed_out, outstanding), (1, 0, 0));
    let h = t.get_connection_health();
    assert_eq!((h.loss_failures, h.loss_window, h.avg_rtt_ms), (0, 1, rtt));
}

#[test]
fn fresh_tracker_is_healthy() {
    let t = PingTracker::new();
    let h = t.get_connection_health();
    assert_eq!((h.loss_failures, h.loss_window, h.avg_rtt_ms, h.is_degraded), (0, 0, 100, false));
    assert!(!t.is_blocked(3));
}

#[test]
fn timed_out_pings_count_as_lost() {
    let mut t = PingTracker::new();
    for _ in 0..4 {
        t.start_ping();
    }
    assert!(t.is_blocked(3));
    assert_eq!(t.cleanup_old_pings(60_000), 0);
    wait_ms(5);
    assert_eq!(t.cleanup_old_pings(1), 4);
    assert!(!t.is_blocked(3));
    let (_, sent, timed_out, outstanding) = t.get_ping_stats();
    assert_eq!((sent, timed_out, outstanding), (4, 4, 0));
    let h = t.get_connection_health();
    assert_eq!((h.loss_failures, h.loss_window, h.avg_rtt_ms), (4, 4, 1));
    assert!(h.is_degraded);
}

#[test]
fn healthy_circuits_stay_put() {
    assert!(ping_state_transition(&CircuitState::Ready, &healthy(), false).is_none());
    assert!(ping_state_transition(&CircuitState::Connecting, &healthy(), true).is_none());
    assert!(ping_state_transition(&CircuitState::Disconnected, &healthy(), true).is_none());
}

#[test]
fn blocked_circuits_are_marked_and_recover() {
    let blocked = ping_state_transition(&CircuitState::Ready, &healthy(), true).unwrap();
    assert!(matches!(blocked, CircuitState::Blocked));
    let recovered = ping_state_transition(&CircuitState::Blocked, &healthy(), false).unwrap();
    assert!(matches!(recovered, CircuitState::Ready));
}

#[test]
fn degraded_circuits_carry_the_reason() {
    let lossy = ConnectionHealth { loss_failures: 2, loss_window: 10, avg_rtt_ms: 80, is_degraded: true };
    match ping_state_transition(&CircuitState::Connected, &lossy, false).unwrap() {
        CircuitState::Degraded { loss_failures, loss_window, avg_rtt_ms, reason } => {
            assert_eq!((loss_failures, loss_window, avg_rtt_ms), (2, 10, 80));
            assert_eq!(reason, "High packet loss");
        }
        other => panic!("unexpected {:?}", other),
    }
    let slow = ConnectionHealth { loss_failures: 0, loss_window: 10, avg_rtt_ms: 900, is_degraded: true };
    match ping_state_transition(&CircuitState::Handshaking, &slow, false).unwrap() {
        CircuitState::Degraded { reason, .. } => assert_eq!(reason, "High latency"),
        other => panic!("unexpected {:?}", other),
    }
    let degraded = CircuitState::Degraded { loss_failures: 0, loss_window: 10, avg_rtt_ms: 900, reason: "High latency".to_string() };
    assert!(matches!(ping_state_transition(&degraded, &healthy(), false), Some(CircuitState::Ready)));
    assert!(ping_state_transition(&degraded, &slow, false).is_none());
}

#[test]
fn closing_circuits_refuse_reliable_sends() {
    let addr = SockAddr::v4(10, 0, 0, 1, 13000);
    assert!(check_can_send_reliable(&CircuitState::Ready, addr).is_ok());
    match check_can_send_reliable(&CircuitState::Disconnecting, addr) {
        Err(NetworkError::ConnectionLost { address }) => assert_eq!(address, addr),
        other => panic!("unexpected {:?}", other),
    }
    assert!(check_can_send_reliable(&CircuitState::Disconnected, addr).is_err());
}

#[test]
fn state_changes_announce_events() {
    assert!(state_change_event(&CircuitState::Ready, &CircuitState::Ready).is_none());
    assert!(matches!(state_change_event(&CircuitState::Connected, &CircuitState::Ready), Some(CircuitEvent::Connected)));
    match state_change_event(&CircuitState::Ready, &CircuitState::Disconnected) {
        Some(CircuitEvent::Disconnected { reason }) => assert_eq!(reason, "State transition"),
        other => panic!("unexpected {:?}", other),
    }
    assert!(state_change_event(&CircuitState::Ready, &CircuitState::Blocked).is_none());
    assert!(same_state(&CircuitState::Blocked, &CircuitState::Blocked));
    assert!(!same_state(&CircuitState::Blocked, &CircuitState::Ready));
}

#[test]
fn acknowledged_messages_are_not_resent() {
    let mut a = Acknowledger::new();
    a.add_pending_reliable(21, wrapper(21, true, vec![]), Instant::now());
    a.add_pending_reliable(22, wrapper(22, true, vec![]), Instant::now());
    assert!(a.handle_ack(21));
    let resent = a.get_retransmits(&vec![21, 22], Instant::now(), 3);
    assert_eq!(resent.len(), 1);
    assert_eq!(resent[0].0, 22);
    assert!(resent[0].1.resent);
    let timing = a.pending_timing();
    assert_eq!(timing.len(), 1);
    assert_eq!((timing[0].0, timing[0].1, timing[0].3), (22, 22, 1));
}
