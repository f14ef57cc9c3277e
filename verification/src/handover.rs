//! The region crossing manager: which regions have a circuit, which region
//! the agent is in, and how the crossing events drive the crossing state
//! machine. Sending messages and closing circuits is left to the caller,
//! which the manager tells what to do.

use vstd::prelude::*;
use crate::error::{NetworkError, NetworkErrorView};
use crate::net_addr::{IpAddress, SockAddr};
use crate::packet_types::{IPADDR, IPPORT};
use crate::state_machine::{allowed, MachineView, RegionCrossingState, RegionCrossingStateMachine};
use crate::uuid_text::uuid_new_v4;

verus! {

/// What is known of a simulator to cross to.
#[derive(Debug, Clone)]
pub struct SimulatorInfo {
    pub address: SockAddr,
    pub region_handle: u64,
    pub region_id: [u8; 16],
    pub circuit_code: u32,
    pub seed_capability: Option<String>,
}

/// What drives a crossing.
#[derive(Debug, Clone)]
pub enum RegionCrossingEvent {
    InitiateCrossing { simulator_info: SimulatorInfo },
    EnableSimulatorReceived { simulator_info: SimulatorInfo },
    ConnectionEstablished { region_handle: u64 },
    MovementCompleted { region_handle: u64 },
    CrossingFailed { region_handle: u64, error: String },
}

/// What the manager asks its caller to do.
#[derive(Debug, Clone)]
pub enum CrossingAction {
    /// Feed this event back to the manager.
    Emit { event: RegionCrossingEvent },
    /// Send `CompleteAgentMovement` on the circuit of the region, then call
    /// `finish_agent_movement`.
    SendCompleteAgentMovement { region_handle: u64 },
    /// Send `CloseCircuit` on the circuit of the region and drop it.
    CloseCircuit { region_handle: u64 },
}

/// The text of the error for a crossing whose circuit cannot be made here.
pub open spec fn no_circuit_creation_text() -> Seq<char> {
    "Circuit creation for region crossing not yet implemented"@
}

/// Whether no handle occurs twice.
pub open spec fn distinct_handles(s: Seq<u64>) -> bool {
    forall|i: int, j: int| 0 <= i < j < s.len() ==> s[i] != s[j]
}

/// The handles of `s` other than `h`, in order.
pub open spec fn others(s: Seq<u64>, h: u64) -> Seq<u64>
    decreases s.len(),
{
    if s.len() == 0 {
        s
    } else if s.last() == h {
        others(s.drop_last(), h)
    } else {
        others(s.drop_last(), h).push(s.last())
    }
}

/// The handles of `s` equal to `h`: `h` once where `s` holds it.
pub open spec fn only(s: Seq<u64>, h: u64) -> Seq<u64> {
    if s.contains(h) {
        seq![h]
    } else {
        Seq::empty()
    }
}

/// The close actions for the handles, in order.
pub open spec fn close_actions(s: Seq<u64>) -> Seq<CrossingAction> {
    s.map_values(|h: u64| CrossingAction::CloseCircuit { region_handle: h })
}

/// The simulator an `EnableSimulator` message announces: its address and
/// port, region handle and a fresh region id; no circuit code or seed
/// capability yet.
pub fn simulator_info_from_enable(ip: &IPADDR, port: &IPPORT, handle: u64) -> (s: SimulatorInfo)
    ensures
        s.address.ip matches IpAddress::V4(o) && (o@ == crate::bytes_util::be32(ip.0) || o@
            == crate::bytes_util::le32(ip.0)),
        s.address.port == port.0 || s.address.port == crate::packet_types::swap16(port.0),
        s.region_handle == handle,
        s.circuit_code == 0,
        s.seed_capability is None,
{
    SimulatorInfo {
        address: SockAddr { ip: IpAddress::V4(ip.to_std_addr()), port: port.to_host_order() },
        region_handle: handle,
        region_id: uuid_new_v4(),
        circuit_code: 0,
        seed_capability: None,
    }
}

/// Region bookkeeping of a crossing.
#[derive(Debug)]
pub struct RegionCrossingManager {
    circuits: Vec<u64>,
    current_region: Option<u64>,
    state_machine: RegionCrossingStateMachine,
    agent_id: [u8; 16],
    session_id: [u8; 16],
}

fn contains_handle(v: &Vec<u64>, h: u64) -> (r: bool)
    ensures
        r == v@.contains(h),
{
    let mut i: usize = 0;
    while i < v.len()
        invariant
            i <= v.len(),
            forall|k: int| 0 <= k < i ==> v@[k] != h,
        decreases v.len() - i,
    {
        if v[i] == h {
            assert(v@[i as int] == h);
            return true;
        }
        i = i + 1;
    }
    false
}

impl RegionCrossingManager {
    /// The regions that have a circuit, in the order they were added.
    pub closed spec fn regions(&self) -> Seq<u64> {
        self.circuits@
    }

    /// The region the agent is in.
    pub closed spec fn current(&self) -> Option<u64> {
        self.current_region
    }

    /// The crossing state machine.
    pub closed spec fn machine(&self) -> MachineView {
        self.state_machine@
    }

    /// The agent and session the manager acts for.
    pub closed spec fn ids(&self) -> ([u8; 16], [u8; 16]) {
        (self.agent_id, self.session_id)
    }

    /// No region has two circuits.
    pub closed spec fn wf(&self) -> bool {
        distinct_handles(self.circuits@)
    }

    /// No region, no current region, the machine idle.
    pub fn new(agent_id: [u8; 16], session_id: [u8; 16]) -> (m: Self)
        ensures
            m.wf(),
            m.regions() == Seq::<u64>::empty(),
            m.current() is None,
            m.machine().current == RegionCrossingState::Idle,
            m.machine().transitions == 0,
            m.ids() == (agent_id, session_id),
    {
        RegionCrossingManager {
            circuits: Vec::new(),
            current_region: None,
            state_machine: RegionCrossingStateMachine::new(),
            agent_id,
            session_id,
        }
    }

    /// Takes note of a circuit for `region_handle`; the first region becomes
    /// the current one.
    pub fn add_circuit(&mut self, region_handle: u64)
        requires
            old(self).wf(),
        ensures
            final(self).wf(),
            final(self).regions().contains(region_handle),
            forall|h: u64| #[trigger] final(self).regions().contains(h) <==> (old(self).regions().contains(h) || h == region_handle),
            final(self).current() == (match old(self).current() {
                Some(c) => Some(c),
                None => Some(region_handle),
            }),
            final(self).machine() == old(self).machine(),
            final(self).ids() == old(self).ids(),
    {
        if !contains_handle(&self.circuits, region_handle) {
            let ghost before = self.circuits@;
            self.circuits.push(region_handle);
            proof {
                let f = self.circuits@;
                assert(f[f.len() - 1] == region_handle);
                assert forall|h: u64| #[trigger] f.contains(h) <==> (before.contains(h) || h == region_handle) by {
                    if f.contains(h) {
                        let a = choose|a: int| 0 <= a < f.len() && f[a] == h;
                        if a < before.len() {
                            assert(before[a] == h);
                        }
                    }
                    if before.contains(h) {
                        let a = choose|a: int| 0 <= a < before.len() && before[a] == h;
                        assert(f[a] == h);
                    }
                }
                assert forall|i: int, j: int| 0 <= i < j < f.len() implies f[i] != f[j] by {
                    if j == f.len() - 1 {
                        assert(f[i] == before[i]);
                    } else {
                        assert(f[i] == before[i] && f[j] == before[j]);
                    }
                }
            }
        }
        if self.current_region.is_none() {
            self.current_region = Some(region_handle);
        }
    }

    /// The region the agent is in, if any.
    pub fn current_region(&self) -> (r: Option<u64>)
        ensures
            r == self.current(),
    {
        self.current_region
    }

    /// Whether `region_handle` has a circuit.
    pub fn has_circuit(&self, region_handle: u64) -> (b: bool)
        ensures
            b == self.regions().contains(region_handle),
    {
        contains_handle(&self.circuits, region_handle)
    }

    /// The regions that have a circuit.
    pub fn active_regions(&self) -> (v: Vec<u64>)
        ensures
            v@ == self.regions(),
    {
        let mut v: Vec<u64> = Vec::new();
        let mut i: usize = 0;
        while i < self.circuits.len()
            invariant
                i <= self.circuits.len(),
                v@ == self.circuits@.take(i as int),
            decreases self.circuits.len() - i,
        {
            v.push(self.circuits[i]);
            i = i + 1;
            assert(v@ =~= self.circuits@.take(i as int));
        }
        assert(self.circuits@.take(self.circuits.len() as int) =~= self.circuits@);
        v
    }

    /// Checks that the agent can be moved to `region_handle`: it needs a
    /// circuit there; the error names the region by the low 32 bits of its
    /// handle.
    pub fn check_movement(&self, region_handle: u64) -> (r: Result<(), NetworkError>)
        ensures
            r is Ok <==> self.regions().contains(region_handle),
            r matches Err(e) ==> e@ == (NetworkErrorView::CircuitNotFound { id: region_handle as u32 }),
    {
        if contains_handle(&self.circuits, region_handle) {
            Ok(())
        } else {
            Err(NetworkError::CircuitNotFound { id: region_handle as u32 })
        }
    }

    /// The agent arrived in `region_handle`: it becomes the current region.
    /// Returns the event that announces it.
    pub fn finish_agent_movement(&mut self, region_handle: u64) -> (e: RegionCrossingEvent)
        ensures
            final(self).current() == Some(region_handle),
            final(self).regions() == old(self).regions(),
            final(self).machine() == old(self).machine(),
            final(self).ids() == old(self).ids(),
            e matches RegionCrossingEvent::MovementCompleted { region_handle: h } && h == region_handle,
    {
        self.current_region = Some(region_handle);
        RegionCrossingEvent::MovementCompleted { region_handle }
    }

    /// Forgets the circuit of `region_handle`: whether there was one, which
    /// the caller then closes.
    pub fn disconnect_from_region(&mut self, region_handle: u64) -> (had: bool)
        requires
            old(self).wf(),
        ensures
            final(self).wf(),
            had == old(self).regions().contains(region_handle),
            final(self).regions() == others(old(self).regions(), region_handle),
            final(self).current() == old(self).current(),
            final(self).machine() == old(self).machine(),
            final(self).ids() == old(self).ids(),
    {
        let ghost before = self.circuits@;
        let mut kept: Vec<u64> = Vec::new();
        let mut had = false;
        let mut i: usize = 0;
        while i < self.circuits.len()
            invariant
                i <= self.circuits.len(),
                self.circuits@ == before,
                kept@ == others(before.take(i as int), region_handle),
                had == before.take(i as int).contains(region_handle),
            decreases self.circuits.len() - i,
        {
            let h = self.circuits[i];
            proof {
                let t = before.take(i as int);
                let t1 = before.take(i + 1);
                assert(t1.drop_last() =~= t);
                assert(t1.last() == h);
                lemma_contains_push(t, h, region_handle);
                assert(t1 =~= t.push(h));
            }
            if h == region_handle {
                had = true;
            } else {
                kept.push(h);
            }
            i = i + 1;
        }
        assert(before.take(before.len() as int) =~= before);
        self.circuits = kept;
        proof {
            lemma_others(before, region_handle);
        }
        had
    }

    /// The regions with a circuit other than `region_handle`.
    pub fn regions_other_than(&self, region_handle: u64) -> (v: Vec<u64>)
        ensures
            v@ == others(self.regions(), region_handle),
    {
        let mut v: Vec<u64> = Vec::new();
        let mut i: usize = 0;
        while i < self.circuits.len()
            invariant
                i <= self.circuits.len(),
                v@ == others(self.circuits@.take(i as int), region_handle),
            decreases self.circuits.len() - i,
        {
            let h = self.circuits[i];
            proof {
                let t = self.circuits@.take(i as int);
                assert(self.circuits@.take(i + 1).drop_last() =~= t);
                assert(self.circuits@.take(i + 1).last() == h);
            }
            if h != region_handle {
                v.push(h);
            }
            i = i + 1;
        }
        assert(self.circuits@.take(self.circuits.len() as int) =~= self.circuits@);
        v
    }

    /// Drops every circuit but that of `region_handle`.
    fn keep_only(&mut self, region_handle: u64)
        requires
            old(self).wf(),
        ensures
            final(self).wf(),
            final(self).regions() == only(old(self).regions(), region_handle),
            final(self).current() == old(self).current(),
            final(self).machine() == old(self).machine(),
            final(self).ids() == old(self).ids(),
    {
        let had = contains_handle(&self.circuits, region_handle);
        let mut kept: Vec<u64> = Vec::new();
        if had {
            kept.push(region_handle);
        }
        self.circuits = kept;
        assert(self.circuits@ =~= only(old(self).regions(), region_handle));
    }

    /// Handles one crossing event; each moves the state machine first and
    /// fails where it refuses the move.
    /// - `InitiateCrossing`: to `Connecting`; making the circuit is not done
    ///   here, so the event ends in an error saying so.
    /// - `EnableSimulatorReceived`: asks for an `InitiateCrossing` event for
    ///   the same simulator.
    /// - `ConnectionEstablished`: to `MovingAgent`; the region needs a
    ///   circuit, on which `CompleteAgentMovement` is to be sent.
    /// - `MovementCompleted`: to `Connected`; the circuits of all other
    ///   regions are dropped and to be closed.
    /// - `CrossingFailed`: to `Failed`; the circuit of the region, if any, is
    ///   dropped and to be closed.
    pub fn handle_event(&mut self, event: RegionCrossingEvent) -> (r: Result<Vec<CrossingAction>, NetworkError>)
        requires
            old(self).wf(),
            moves_machine(old(self).machine(), event) ==> old(self).machine().transitions < u64::MAX,
        ensures
            final(self).wf(),
            final(self).ids() == old(self).ids(),
            final(self).current() == old(self).current(),
            match event {
                RegionCrossingEvent::InitiateCrossing { .. } => {
                    &&& final(self).regions() == old(self).regions()
                    &&& transitioned(old(self).machine(), final(self).machine(), RegionCrossingState::Connecting)
                    &&& r matches Err(e) && (if allowed(old(self).machine().current, RegionCrossingState::Connecting) {
                        e@ == (NetworkErrorView::Other { reason: no_circuit_creation_text() })
                    } else {
                        e@ is Other
                    })
                },
                RegionCrossingEvent::EnableSimulatorReceived { simulator_info } => {
                    &&& final(self).regions() == old(self).regions()
                    &&& final(self).machine() == old(self).machine()
                    &&& r matches Ok(acts) && acts@ == seq![
                        CrossingAction::Emit { event: RegionCrossingEvent::InitiateCrossing { simulator_info } },
                    ]
                },
                RegionCrossingEvent::ConnectionEstablished { region_handle } => {
                    &&& final(self).regions() == old(self).regions()
                    &&& transitioned(old(self).machine(), final(self).machine(), RegionCrossingState::MovingAgent)
                    &&& (r is Ok <==> allowed(old(self).machine().current, RegionCrossingState::MovingAgent)
                        && old(self).regions().contains(region_handle))
                    &&& (r matches Ok(acts) ==> acts@ == seq![
                        CrossingAction::SendCompleteAgentMovement { region_handle },
                    ])
                    &&& allowed(old(self).machine().current, RegionCrossingState::MovingAgent)
                        && !old(self).regions().contains(region_handle) ==> (r matches Err(e) && e@
                        == (NetworkErrorView::CircuitNotFound { id: region_handle as u32 }))
                },
                RegionCrossingEvent::MovementCompleted { region_handle } => {
                    &&& transitioned(old(self).machine(), final(self).machine(), RegionCrossingState::Connected)
                    &&& (r is Ok <==> allowed(old(self).machine().current, RegionCrossingState::Connected))
                    &&& (r matches Ok(acts) ==> acts@ == close_actions(others(old(self).regions(), region_handle))
                        && final(self).regions() == only(old(self).regions(), region_handle))
                    &&& r is Err ==> final(self).regions() == old(self).regions()
                },
                RegionCrossingEvent::CrossingFailed { region_handle, .. } => {
                    &&& transitioned(old(self).machine(), final(self).machine(), RegionCrossingState::Failed)
                    &&& (r is Ok <==> allowed(old(self).machine().current, RegionCrossingState::Failed))
                    &&& (r matches Ok(acts) ==> final(self).regions() == others(old(self).regions(), region_handle)
                        && acts@ == (if old(self).regions().contains(region_handle) {
                        seq![CrossingAction::CloseCircuit { region_handle }]
                    } else {
                        Seq::<CrossingAction>::empty()
                    }))
                    &&& r is Err ==> final(self).regions() == old(self).regions()
                },
            },
    {
        match event {
            RegionCrossingEvent::InitiateCrossing { simulator_info: _ } => {
                self.state_machine.transition_to(RegionCrossingState::Connecting)?;
                Err(
                    NetworkError::Other {
                        reason: String::from_str("Circuit creation for region crossing not yet implemented"),
                    },
                )
            },
            RegionCrossingEvent::EnableSimulatorReceived { simulator_info } => {
                let mut acts: Vec<CrossingAction> = Vec::new();
                acts.push(
                    CrossingAction::Emit { event: RegionCrossingEvent::InitiateCrossing { simulator_info } },
                );
                Ok(acts)
            },
            RegionCrossingEvent::ConnectionEstablished { region_handle } => {
                self.state_machine.transition_to(RegionCrossingState::MovingAgent)?;
                self.check_movement(region_handle)?;
                let mut acts: Vec<CrossingAction> = Vec::new();
                acts.push(CrossingAction::SendCompleteAgentMovement { region_handle });
                Ok(acts)
            },
            RegionCrossingEvent::MovementCompleted { region_handle } => {
                self.state_machine.transition_to(RegionCrossingState::Connected)?;
                let old_regions = self.regions_other_than(region_handle);
                let mut acts: Vec<CrossingAction> = Vec::new();
                let mut i: usize = 0;
                while i < old_regions.len()
                    invariant
                        i <= old_regions.len(),
                        acts@ == close_actions(old_regions@.take(i as int)),
                    decreases old_regions.len() - i,
                {
                    acts.push(CrossingAction::CloseCircuit { region_handle: old_regions[i] });
                    i = i + 1;
                    assert(acts@ =~= close_actions(old_regions@.take(i as int)));
                }
                assert(old_regions@.take(old_regions.len() as int) =~= old_regions@);
                self.keep_only(region_handle);
                Ok(acts)
            },
            RegionCrossingEvent::CrossingFailed { region_handle, error: _ } => {
                self.state_machine.transition_to(RegionCrossingState::Failed)?;
                let had = self.disconnect_from_region(region_handle);
                let mut acts: Vec<CrossingAction> = Vec::new();
                if had {
                    acts.push(CrossingAction::CloseCircuit { region_handle });
                }
                Ok(acts)
            },
        }
    }
}

/// The state an event asks the machine to move to, if any.
pub open spec fn event_target(e: RegionCrossingEvent) -> Option<RegionCrossingState> {
    match e {
        RegionCrossingEvent::InitiateCrossing { .. } => Some(RegionCrossingState::Connecting),
        RegionCrossingEvent::EnableSimulatorReceived { .. } => None,
        RegionCrossingEvent::ConnectionEstablished { .. } => Some(RegionCrossingState::MovingAgent),
        RegionCrossingEvent::MovementCompleted { .. } => Some(RegionCrossingState::Connected),
        RegionCrossingEvent::CrossingFailed { .. } => Some(RegionCrossingState::Failed),
    }
}

/// Whether the event moves the machine: it asks for a transition that the
/// current state allows.
pub open spec fn moves_machine(m: MachineView, e: RegionCrossingEvent) -> bool {
    match event_target(e) {
        Some(t) => allowed(m.current, t),
        None => false,
    }
}

/// The machine moved to `to` where that is allowed, and stayed otherwise.
pub open spec fn transitioned(before: MachineView, after: MachineView, to: RegionCrossingState) -> bool {
    if allowed(before.current, to) {
        after == (MachineView {
            current: to,
            previous: Some(before.current),
            transitions: (before.transitions + 1) as u64,
        })
    } else {
        after == before
    }
}

/// Appending `x` adds exactly `x` to what a sequence holds.
proof fn lemma_contains_push(s: Seq<u64>, x: u64, y: u64)
    ensures
        s.push(x).contains(y) <==> (s.contains(y) || y == x),
{
    let p = s.push(x);
    if p.contains(y) {
        let a = choose|a: int| 0 <= a < p.len() && p[a] == y;
        if a < s.len() {
            assert(s[a] == y);
        }
    }
    if s.contains(y) {
        let a = choose|a: int| 0 <= a < s.len() && s[a] == y;
        assert(p[a] == y);
    }
    if y == x {
        assert(p[s.len() as int] == y);
    }
}

/// Dropping `h` keeps exactly the other handles, and keeps them distinct.
proof fn lemma_others(s: Seq<u64>, h: u64)
    ensures
        forall|y: u64| #[trigger] others(s, h).contains(y) <==> (s.contains(y) && y != h),
        distinct_handles(s) ==> distinct_handles(others(s, h)),
    decreases s.len(),
{
    if s.len() > 0 {
        let d = s.drop_last();
        lemma_others(d, h);
        assert(s =~= d.push(s.last()));
        assert forall|y: u64| #[trigger] others(s, h).contains(y) <==> (s.contains(y) && y != h) by {
            lemma_contains_push(d, s.last(), y);
            if s.last() != h {
                lemma_contains_push(others(d, h), s.last(), y);
            }
        }
        if distinct_handles(s) {
            assert(distinct_handles(d)) by {
                assert forall|i: int, j: int| 0 <= i < j < d.len() implies d[i] != d[j] by {
                    assert(d[i] == s[i] && d[j] == s[j]);
                }
            }
            if s.last() != h {
                let o = others(d, h);
                let f = o.push(s.last());
                assert(!o.contains(s.last())) by {
                    if o.contains(s.last()) {
                        assert(d.contains(s.last()));
                        let k = choose|k: int| 0 <= k < d.len() && d[k] == s.last();
                        assert(s[k] == s[s.len() - 1]);
                    }
                }
                assert forall|i: int, j: int| 0 <= i < j < f.len() implies f[i] != f[j] by {
                    if j == f.len() - 1 {
                        assert(f[i] == o[i]);
                        assert(o.contains(o[i]));
                    } else {
                        assert(f[i] == o[i] && f[j] == o[j]);
                    }
                }
            }
        }
    }
}

} // verus!
