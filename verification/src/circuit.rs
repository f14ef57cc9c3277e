//! The state of a circuit to a simulator and the decisions taken on it:
//! which state the ping health moves it to, whether a reliable message may
//! still be sent, and which event a change of state announces.

use vstd::prelude::*;
use crate::error::{NetworkError, NetworkErrorView};
use crate::net_addr::SockAddr;
use crate::packets::PacketWrapper;
use crate::ping::{ConnectionHealth, degraded_spec, losses, PingTracker, next_ping_id_after};
use crate::text::str_eq;

verus! {

/// Why a circuit counts as degraded.
pub open spec fn degraded_reason_spec(loss_failures: nat, loss_window: nat) -> Seq<char> {
    if loss_failures * 20 > loss_window {
        "High packet loss"@
    } else {
        "High latency"@
    }
}

/// The state of a circuit.
#[derive(Debug, Clone)]
pub enum CircuitState {
    /// Being established.
    Connecting,
    /// Established, the handshake not done.
    Connected,
    /// Handshake in progress.
    Handshaking,
    /// Ready for traffic.
    Ready,
    /// Working but losing pings or slow: `loss_failures` of the last
    /// `loss_window` pings lost, `avg_rtt_ms` the average round-trip time.
    Degraded { loss_failures: usize, loss_window: usize, avg_rtt_ms: u64, reason: String },
    /// Too many pings without reply.
    Blocked,
    /// Being shut down.
    Disconnecting,
    /// Shut down.
    Disconnected,
}

/// Mathematical model of a [`CircuitState`].
pub enum CircuitStateView {
    Connecting,
    Connected,
    Handshaking,
    Ready,
    Degraded { loss_failures: nat, loss_window: nat, avg_rtt_ms: u64, reason: Seq<char> },
    Blocked,
    Disconnecting,
    Disconnected,
}

impl View for CircuitState {
    type V = CircuitStateView;

    open spec fn view(&self) -> CircuitStateView {
        match self {
            CircuitState::Connecting => CircuitStateView::Connecting,
            CircuitState::Connected => CircuitStateView::Connected,
            CircuitState::Handshaking => CircuitStateView::Handshaking,
            CircuitState::Ready => CircuitStateView::Ready,
            CircuitState::Degraded { loss_failures, loss_window, avg_rtt_ms, reason } =>
                CircuitStateView::Degraded {
                    loss_failures: *loss_failures as nat,
                    loss_window: *loss_window as nat,
                    avg_rtt_ms: *avg_rtt_ms,
                    reason: reason@,
                },
            CircuitState::Blocked => CircuitStateView::Blocked,
            CircuitState::Disconnecting => CircuitStateView::Disconnecting,
            CircuitState::Disconnected => CircuitStateView::Disconnected,
        }
    }
}

/// The degraded state that a health reading describes.
pub open spec fn degraded_from(h: ConnectionHealth) -> CircuitStateView {
    CircuitStateView::Degraded {
        loss_failures: h.loss_failures as nat,
        loss_window: h.loss_window as nat,
        avg_rtt_ms: h.avg_rtt_ms,
        reason: degraded_reason_spec(h.loss_failures as nat, h.loss_window as nat),
    }
}

/// Whether a health reading is consistent: its verdict is the one its
/// numbers give.
pub open spec fn health_wf(h: ConnectionHealth) -> bool {
    h.is_degraded == degraded_spec(h.loss_failures as nat, h.loss_window as nat, h.avg_rtt_ms as int)
}

/// The state a circuit moves to after a ping round (`None`: it stays). A
/// ready, connected or handshaking circuit becomes blocked when too many
/// pings are outstanding, else degraded when its health is; a degraded one
/// becomes blocked, or ready once healthy again; a blocked one becomes ready
/// once neither blocked nor degraded. Other states are not watched.
pub open spec fn ping_transition_spec(s: CircuitStateView, h: ConnectionHealth, blocked: bool) -> Option<
    CircuitStateView,
> {
    match s {
        CircuitStateView::Ready | CircuitStateView::Connected | CircuitStateView::Handshaking => {
            if blocked {
                Some(CircuitStateView::Blocked)
            } else if h.is_degraded {
                Some(degraded_from(h))
            } else {
                None
            }
        },
        CircuitStateView::Degraded { .. } => {
            if blocked {
                Some(CircuitStateView::Blocked)
            } else if !h.is_degraded {
                Some(CircuitStateView::Ready)
            } else {
                None
            }
        },
        CircuitStateView::Blocked => {
            if !blocked && !h.is_degraded {
                Some(CircuitStateView::Ready)
            } else {
                None
            }
        },
        _ => None,
    }
}

/// What a ping round does to a circuit: states that are not watched
/// (connecting, shutting down, shut down) never change; a watched circuit
/// with too many pings outstanding becomes blocked; a circuit only becomes
/// degraded on a degraded reading, and only becomes ready on a healthy one
/// with few enough pings outstanding.
pub proof fn lemma_ping_transition_laws(s: CircuitStateView, h: ConnectionHealth, blocked: bool)
    ensures
        (s is Connecting || closing_spec(s)) ==> ping_transition_spec(s, h, blocked) is None,
        (s is Ready || s is Connected || s is Handshaking || s is Degraded) && blocked ==> ping_transition_spec(
            s,
            h,
            blocked,
        ) == Some(CircuitStateView::Blocked),
        ping_transition_spec(s, h, blocked) matches Some(n) && n is Degraded ==> h.is_degraded,
        ping_transition_spec(s, h, blocked) matches Some(n) && n is Ready ==> !h.is_degraded && !blocked,
{
}

/// The state a circuit in `state` moves to after a ping round in which the
/// tracker reported `health` and whether it is `blocked`.
pub fn ping_state_transition(state: &CircuitState, health: &ConnectionHealth, blocked: bool) -> (r: Option<
    CircuitState,
>)
    ensures
        match r {
            Some(n) => ping_transition_spec(state@, *health, blocked) == Some(n@),
            None => ping_transition_spec(state@, *health, blocked) is None,
        },
{
    match state {
        CircuitState::Ready | CircuitState::Connected | CircuitState::Handshaking => {
            if blocked {
                Some(CircuitState::Blocked)
            } else if health.is_degraded {
                Some(degraded_state(health))
            } else {
                None
            }
        },
        CircuitState::Degraded { .. } => {
            if blocked {
                Some(CircuitState::Blocked)
            } else if !health.is_degraded {
                Some(CircuitState::Ready)
            } else {
                None
            }
        },
        CircuitState::Blocked => {
            if !blocked && !health.is_degraded {
                Some(CircuitState::Ready)
            } else {
                None
            }
        },
        _ => None,
    }
}

/// The degraded state described by `health`.
fn degraded_state(health: &ConnectionHealth) -> (s: CircuitState)
    ensures
        s@ == degraded_from(*health),
{
    let high_loss = health.loss_failures as u128 * 20 > health.loss_window as u128;
    let reason = if high_loss {
        String::from_str("High packet loss")
    } else {
        String::from_str("High latency")
    };
    CircuitState::Degraded {
        loss_failures: health.loss_failures,
        loss_window: health.loss_window,
        avg_rtt_ms: health.avg_rtt_ms,
        reason,
    }
}

/// What one round of the ping loop decided.
#[derive(Debug)]
pub struct PingRound {
    /// Pings given up on as timed out.
    pub timed_out: usize,
    /// Whether too many pings were outstanding after that.
    pub blocked: bool,
    /// The health the tracker reported.
    pub health: ConnectionHealth,
    /// The state the circuit moves to, if it changes.
    pub next_state: Option<CircuitState>,
    /// The number of the ping to send now.
    pub ping_id: u8,
}

/// One round of the ping loop of a circuit in `state`: pings outstanding
/// for longer than `ping_timeout_ms` are given up on, the circuit is blocked
/// when more than `max_outstanding` remain, its state follows from that and
/// from the tracker's health, and a new ping is started.
pub fn ping_round(tracker: &mut PingTracker, state: &CircuitState, ping_timeout_ms: u64, max_outstanding: usize) -> (r: PingRound)
    requires
        old(tracker).wf(),
        old(tracker).timed_out() + old(tracker).outstanding().len() <= u32::MAX,
        old(tracker).sent() < u32::MAX,
    ensures
        final(tracker).wf(),
        r.timed_out <= old(tracker).outstanding().len(),
        final(tracker).timed_out() == old(tracker).timed_out() + r.timed_out,
        r.blocked == (old(tracker).outstanding().len() - r.timed_out > max_outstanding),
        r.health.loss_failures == losses(final(tracker).outcomes()),
        r.health.loss_window == final(tracker).outcomes().len(),
        r.health.avg_rtt_ms == final(tracker).avg_rtt(),
        health_wf(r.health),
        match r.next_state {
            Some(n) => ping_transition_spec(state@, r.health, r.blocked) == Some(n@),
            None => ping_transition_spec(state@, r.health, r.blocked) is None,
        },
        r.ping_id == old(tracker).next_id(),
        r.ping_id != 0,
        final(tracker).outstanding().contains(r.ping_id),
        final(tracker).next_id() == next_ping_id_after(old(tracker).next_id()),
        final(tracker).sent() == old(tracker).sent() + 1,
{
    let timed_out = tracker.cleanup_old_pings(ping_timeout_ms);
    let blocked = tracker.is_blocked(max_outstanding);
    let health = tracker.get_connection_health();
    let next_state = ping_state_transition(state, &health, blocked);
    let ping_id = tracker.start_ping();
    PingRound { timed_out, blocked, health, next_state, ping_id }
}

/// Whether a circuit in this state is shutting down or shut down.
pub open spec fn closing_spec(s: CircuitStateView) -> bool {
    s is Disconnecting || s is Disconnected
}

/// A reliable message may go out on a circuit unless it is shutting down or
/// shut down; then the connection to `address` counts as lost.
pub fn check_can_send_reliable(state: &CircuitState, address: SockAddr) -> (r: Result<(), NetworkError>)
    ensures
        r is Ok <==> !closing_spec(state@),
        r matches Err(e) ==> e@ == (NetworkErrorView::ConnectionLost { address: address@ }),
{
    match state {
        CircuitState::Disconnected | CircuitState::Disconnecting => Err(
            NetworkError::ConnectionLost { address },
        ),
        _ => Ok(()),
    }
}

/// What a circuit announces.
#[derive(Debug)]
pub enum CircuitEvent {
    /// The circuit became ready.
    Connected,
    /// The circuit went down, for `reason`.
    Disconnected { reason: String },
    /// A message arrived.
    PacketReceived { packet: PacketWrapper },
    /// Something went wrong.
    Error { error: NetworkError },
}

/// Whether two states are the same.
pub fn same_state(a: &CircuitState, b: &CircuitState) -> (r: bool)
    ensures
        r == (a@ == b@),
{
    match (a, b) {
        (CircuitState::Connecting, CircuitState::Connecting) => true,
        (CircuitState::Connected, CircuitState::Connected) => true,
        (CircuitState::Handshaking, CircuitState::Handshaking) => true,
        (CircuitState::Ready, CircuitState::Ready) => true,
        (
            CircuitState::Degraded { loss_failures: f1, loss_window: w1, avg_rtt_ms: a1, reason: r1 },
            CircuitState::Degraded { loss_failures: f2, loss_window: w2, avg_rtt_ms: a2, reason: r2 },
        ) => *f1 == *f2 && *w1 == *w2 && *a1 == *a2 && str_eq(r1.as_str(), r2.as_str()),
        (CircuitState::Blocked, CircuitState::Blocked) => true,
        (CircuitState::Disconnecting, CircuitState::Disconnecting) => true,
        (CircuitState::Disconnected, CircuitState::Disconnected) => true,
        _ => false,
    }
}

/// Which kind of event a change of state announces.
pub enum StateEventView {
    Connected,
    Disconnected { reason: Seq<char> },
}

/// The event announced when a circuit goes from `old` to `new`: none when
/// the state stays; `Connected` on becoming ready; `Disconnected` with the
/// reason "State transition" on going down; none for other states.
pub open spec fn state_event_spec(old: CircuitStateView, new: CircuitStateView) -> Option<StateEventView> {
    if old == new {
        None
    } else {
        match new {
            CircuitStateView::Ready => Some(StateEventView::Connected),
            CircuitStateView::Disconnected => Some(
                StateEventView::Disconnected { reason: "State transition"@ },
            ),
            _ => None,
        }
    }
}

/// The event a change from `old` to `new` announces, if any.
pub fn state_change_event(old: &CircuitState, new: &CircuitState) -> (r: Option<CircuitEvent>)
    ensures
        match state_event_spec(old@, new@) {
            None => r is None,
            Some(StateEventView::Connected) => r matches Some(CircuitEvent::Connected),
            Some(StateEventView::Disconnected { reason }) => r matches Some(
                CircuitEvent::Disconnected { reason: got },
            ) && got@ == reason,
        },
{
    if same_state(old, new) {
        return None;
    }
    match new {
        CircuitState::Ready => Some(CircuitEvent::Connected),
        CircuitState::Disconnected => Some(
            CircuitEvent::Disconnected { reason: String::from_str("State transition") },
        ),
        _ => None,
    }
}

} // verus!
