//! The finite state machine that tracks the crossing from one region (and
//! simulator) to the next.

use vstd::prelude::*;
use std::time::{Duration, Instant};
use crate::error::{NetworkError, NetworkErrorView};
use crate::text::{push_str, string_of};
use crate::time_util::{instant_elapsed, instant_now};

verus! {

/// States of a region crossing.
#[derive(Debug, Clone, Copy, PartialEq, Eq, Structural)]
pub enum RegionCrossingState {
    /// Not crossing regions.
    Idle,
    /// Connecting to the new simulator.
    Connecting,
    /// Moving the agent to the new region.
    MovingAgent,
    /// Connected to the new region.
    Connected,
    /// The crossing failed.
    Failed,
}

/// The name of a state, as its `Display` writes it.
pub open spec fn state_name(s: RegionCrossingState) -> Seq<char> {
    match s {
        RegionCrossingState::Idle => "Idle"@,
        RegionCrossingState::Connecting => "Connecting"@,
        RegionCrossingState::MovingAgent => "MovingAgent"@,
        RegionCrossingState::Connected => "Connected"@,
        RegionCrossingState::Failed => "Failed"@,
    }
}

/// The transitions the machine allows: the steps of a crossing, failure from
/// every state but `Failed` itself, aborting back to `Idle`, a new crossing
/// from `Connected`, reset and retry from `Failed`, and staying put.
pub open spec fn allowed(from: RegionCrossingState, to: RegionCrossingState) -> bool {
    match (from, to) {
        (RegionCrossingState::Idle, RegionCrossingState::Connecting) => true,
        (RegionCrossingState::Idle, RegionCrossingState::Failed) => true,
        (RegionCrossingState::Connecting, RegionCrossingState::MovingAgent) => true,
        (RegionCrossingState::Connecting, RegionCrossingState::Failed) => true,
        (RegionCrossingState::Connecting, RegionCrossingState::Idle) => true,
        (RegionCrossingState::MovingAgent, RegionCrossingState::Connected) => true,
        (RegionCrossingState::MovingAgent, RegionCrossingState::Failed) => true,
        (RegionCrossingState::MovingAgent, RegionCrossingState::Idle) => true,
        (RegionCrossingState::Connected, RegionCrossingState::Idle) => true,
        (RegionCrossingState::Connected, RegionCrossingState::Connecting) => true,
        (RegionCrossingState::Connected, RegionCrossingState::Failed) => true,
        (RegionCrossingState::Failed, RegionCrossingState::Idle) => true,
        (RegionCrossingState::Failed, RegionCrossingState::Connecting) => true,
        _ => from == to,
    }
}

/// A crossing is under way.
pub open spec fn crossing(s: RegionCrossingState) -> bool {
    s == RegionCrossingState::Connecting || s == RegionCrossingState::MovingAgent
}

/// No crossing is under way and none has failed.
pub open spec fn stable(s: RegionCrossingState) -> bool {
    s == RegionCrossingState::Idle || s == RegionCrossingState::Connected
}

/// The text of the error for a refused transition.
pub open spec fn invalid_transition_text(from: RegionCrossingState, to: RegionCrossingState) -> Seq<char> {
    "Invalid state transition from "@ + state_name(from) + " to "@ + state_name(to)
}

impl RegionCrossingState {
    /// The state's name.
    pub fn name(&self) -> (s: &'static str)
        ensures
            s@ == state_name(*self),
    {
        match self {
            RegionCrossingState::Idle => "Idle",
            RegionCrossingState::Connecting => "Connecting",
            RegionCrossingState::MovingAgent => "MovingAgent",
            RegionCrossingState::Connected => "Connected",
            RegionCrossingState::Failed => "Failed",
        }
    }
}

impl Default for RegionCrossingState {
    fn default() -> (s: Self)
        ensures
            s == RegionCrossingState::Idle,
    {
        RegionCrossingState::Idle
    }
}

/// Tracks the state of a region crossing.
#[derive(Debug)]
pub struct RegionCrossingStateMachine {
    current_state: RegionCrossingState,
    previous_state: Option<RegionCrossingState>,
    transition_count: u64,
    state_entered_at: Instant,
}

/// Mathematical model of the machine: the current and previous states and
/// the number of transitions made.
pub struct MachineView {
    pub current: RegionCrossingState,
    pub previous: Option<RegionCrossingState>,
    pub transitions: u64,
}

impl View for RegionCrossingStateMachine {
    type V = MachineView;

    closed spec fn view(&self) -> MachineView {
        MachineView {
            current: self.current_state,
            previous: self.previous_state,
            transitions: self.transition_count,
        }
    }
}

/// A snapshot of the machine.
#[derive(Debug, Clone, Copy)]
pub struct StateMachineStats {
    pub current_state: RegionCrossingState,
    pub time_in_current_state: Duration,
    pub transition_count: u64,
    pub is_crossing: bool,
    pub is_stable: bool,
    pub is_failed: bool,
}

impl RegionCrossingStateMachine {
    /// A machine in the `Idle` state that has made no transition.
    pub fn new() -> (m: Self)
        ensures
            m@.current == RegionCrossingState::Idle,
            m@.previous.is_none(),
            m@.transitions == 0,
            m@ == machine_start(),
    {
        RegionCrossingStateMachine {
            current_state: RegionCrossingState::Idle,
            previous_state: None,
            transition_count: 0,
            state_entered_at: instant_now(),
        }
    }

    /// The current state.
    pub fn current_state(&self) -> (s: RegionCrossingState)
        ensures
            s == self@.current,
    {
        self.current_state
    }

    /// The state before the last transition, if any.
    pub fn previous_state(&self) -> (s: Option<RegionCrossingState>)
        ensures
            s == self@.previous,
    {
        self.previous_state
    }

    /// How long the machine has been in its current state.
    pub fn time_in_current_state(&self) -> Duration {
        instant_elapsed(&self.state_entered_at)
    }

    /// The number of transitions made.
    pub fn transition_count(&self) -> (n: u64)
        ensures
            n == self@.transitions,
    {
        self.transition_count
    }

    /// Whether moving to `new_state` is allowed from the current state.
    pub fn can_transition_to(&self, new_state: RegionCrossingState) -> (b: bool)
        ensures
            b == allowed(self@.current, new_state),
    {
            match (self.current_state, new_state) {
            (RegionCrossingState::Idle, RegionCrossingState::Connecting) => true,
            (RegionCrossingState::Idle, RegionCrossingState::Failed) => true,
            (RegionCrossingState::Connecting, RegionCrossingState::MovingAgent) => true,
            (RegionCrossingState::Connecting, RegionCrossingState::Failed) => true,
            (RegionCrossingState::Connecting, RegionCrossingState::Idle) => true,
            (RegionCrossingState::MovingAgent, RegionCrossingState::Connected) => true,
            (RegionCrossingState::MovingAgent, RegionCrossingState::Failed) => true,
            (RegionCrossingState::MovingAgent, RegionCrossingState::Idle) => true,
            (RegionCrossingState::Connected, RegionCrossingState::Idle) => true,
            (RegionCrossingState::Connected, RegionCrossingState::Connecting) => true,
            (RegionCrossingState::Connected, RegionCrossingState::Failed) => true,
            (RegionCrossingState::Failed, RegionCrossingState::Idle) => true,
            (RegionCrossingState::Failed, RegionCrossingState::Connecting) => true,
            (state, new_state) => state == new_state,
        }
    }

    /// Moves to `new_state` if that is allowed; otherwise leaves the machine
    /// as it is and says which transition was refused.
    pub fn transition_to(&mut self, new_state: RegionCrossingState) -> (r: Result<(), NetworkError>)
        requires
            allowed(old(self)@.current, new_state) ==> old(self)@.transitions < u64::MAX,
        ensures
            r is Ok <==> allowed(old(self)@.current, new_state),
            r is Ok ==> final(self)@ == (MachineView {
                current: new_state,
                previous: Some(old(self)@.current),
                transitions: (old(self)@.transitions + 1) as u64,
            }),
            r is Err ==> final(self)@ == old(self)@,
            final(self)@ == after_call(old(self)@, MachineCall::TransitionTo(new_state)),
            r matches Err(e) ==> e@ == (NetworkErrorView::Other {
                reason: invalid_transition_text(old(self)@.current, new_state),
            }),
    {
        if !self.can_transition_to(new_state) {
            let mut text: Vec<char> = Vec::new();
            push_str(&mut text, "Invalid state transition from ");
            push_str(&mut text, self.current_state.name());
            push_str(&mut text, " to ");
            push_str(&mut text, new_state.name());
            return Err(NetworkError::Other { reason: string_of(&text) });
        }
        let old_state = self.current_state;
        self.previous_state = Some(old_state);
        self.current_state = new_state;
        self.transition_count = self.transition_count + 1;
        self.state_entered_at = instant_now();
        Ok(())
    }

    /// Returns to `Idle`, counting that as a transition.
    pub fn reset(&mut self)
        requires
            old(self)@.transitions < u64::MAX,
        ensures
            final(self)@ == (MachineView {
                current: RegionCrossingState::Idle,
                previous: Some(old(self)@.current),
                transitions: (old(self)@.transitions + 1) as u64,
            }),
            final(self)@ == after_call(old(self)@, MachineCall::Reset),
    {
        self.previous_state = Some(self.current_state);
        self.current_state = RegionCrossingState::Idle;
        self.transition_count = self.transition_count + 1;
        self.state_entered_at = instant_now();
    }

    /// Whether a crossing is under way.
    pub fn is_crossing(&self) -> (b: bool)
        ensures
            b == crossing(self@.current),
    {
        match self.current_state {
            RegionCrossingState::Connecting | RegionCrossingState::MovingAgent => true,
            _ => false,
        }
    }

    /// Whether the machine is idle or connected.
    pub fn is_stable(&self) -> (b: bool)
        ensures
            b == stable(self@.current),
    {
        match self.current_state {
            RegionCrossingState::Idle | RegionCrossingState::Connected => true,
            _ => false,
        }
    }

    /// Whether the last crossing failed.
    pub fn is_failed(&self) -> (b: bool)
        ensures
            b == (self@.current == RegionCrossingState::Failed),
    {
        self.current_state == RegionCrossingState::Failed
    }

    /// A description of the current state.
    pub fn state_description(&self) -> (s: &'static str)
        ensures
            s@ == (match self@.current {
                RegionCrossingState::Idle => "Not crossing regions"@,
                RegionCrossingState::Connecting => "Establishing connection to new simulator"@,
                RegionCrossingState::MovingAgent => "Moving agent to new region"@,
                RegionCrossingState::Connected => "Successfully connected to region"@,
                RegionCrossingState::Failed => "Region crossing failed"@,
            }),
    {
        match self.current_state {
            RegionCrossingState::Idle => "Not crossing regions",
            RegionCrossingState::Connecting => "Establishing connection to new simulator",
            RegionCrossingState::MovingAgent => "Moving agent to new region",
            RegionCrossingState::Connected => "Successfully connected to region",
            RegionCrossingState::Failed => "Region crossing failed",
        }
    }

    /// A snapshot of the machine.
    pub fn statistics(&self) -> (s: StateMachineStats)
        ensures
            s.current_state == self@.current,
            s.transition_count == self@.transitions,
            s.is_crossing == crossing(self@.current),
            s.is_stable == stable(self@.current),
            s.is_failed == (self@.current == RegionCrossingState::Failed),
    {
        StateMachineStats {
            current_state: self.current_state,
            time_in_current_state: self.time_in_current_state(),
            transition_count: self.transition_count,
            is_crossing: self.is_crossing(),
            is_stable: self.is_stable(),
            is_failed: self.is_failed(),
        }
    }
}

impl Default for RegionCrossingStateMachine {
    fn default() -> (m: Self)
        ensures
            m@.current == RegionCrossingState::Idle,
            m@.previous.is_none(),
            m@.transitions == 0,
    {
        Self::new()
    }
}

/// Every state is exactly one of crossing, stable and failed.
pub proof fn lemma_state_classes_partition(s: RegionCrossingState)
    ensures
        crossing(s) || stable(s) || s == RegionCrossingState::Failed,
        !(crossing(s) && stable(s)),
        !(crossing(s) && s == RegionCrossingState::Failed),
        !(stable(s) && s == RegionCrossingState::Failed),
{
}

/// A crossing can fail from every state, and every state can return to
/// `Idle`: the machine never gets stuck.
pub proof fn lemma_failure_and_abort_always_allowed(s: RegionCrossingState)
    ensures
        allowed(s, RegionCrossingState::Failed),
        allowed(s, RegionCrossingState::Idle),
        allowed(s, s),
{
}

/// The agent only reaches `MovingAgent` from `Connecting`, and `Connected`
/// only from `MovingAgent`: a crossing passes through its steps in order.
pub proof fn lemma_crossing_steps_in_order(s: RegionCrossingState)
    ensures
        s != RegionCrossingState::MovingAgent ==> (allowed(s, RegionCrossingState::MovingAgent)
            <==> s == RegionCrossingState::Connecting),
        s != RegionCrossingState::Connected ==> (allowed(s, RegionCrossingState::Connected)
            <==> s == RegionCrossingState::MovingAgent),
{
}

/// A call that changes the machine: `reset()`, or `transition_to(s)`.
pub enum MachineCall {
    Reset,
    TransitionTo(RegionCrossingState),
}

/// The state a call moves the machine to, when it takes effect.
pub open spec fn call_target(c: MachineCall) -> RegionCrossingState {
    match c {
        MachineCall::Reset => RegionCrossingState::Idle,
        MachineCall::TransitionTo(s) => s,
    }
}

/// Whether a call takes effect: a reset always does, a transition when it
/// is allowed from the current state.
pub open spec fn takes_effect(m: MachineView, c: MachineCall) -> bool {
    match c {
        MachineCall::Reset => true,
        MachineCall::TransitionTo(s) => allowed(m.current, s),
    }
}

/// The machine after one call: a call that takes effect moves it to its
/// target and remembers the state it left; a refused transition changes
/// nothing.
pub open spec fn after_call(m: MachineView, c: MachineCall) -> MachineView {
    if takes_effect(m, c) {
        MachineView {
            current: call_target(c),
            previous: Some(m.current),
            transitions: (m.transitions + 1) as u64,
        }
    } else {
        m
    }
}

/// The machine after a sequence of calls, in order.
pub open spec fn after_calls(m: MachineView, cs: Seq<MachineCall>) -> MachineView
    decreases cs.len(),
{
    if cs.len() == 0 {
        m
    } else {
        after_call(after_calls(m, cs.drop_last()), cs.last())
    }
}

/// The position of the last call that took effect, if any did.
pub open spec fn last_effective_call(m: MachineView, cs: Seq<MachineCall>) -> Option<int>
    decreases cs.len(),
{
    if cs.len() == 0 {
        None
    } else if takes_effect(after_calls(m, cs.drop_last()), cs.last()) {
        Some(cs.len() - 1)
    } else {
        last_effective_call(m, cs.drop_last())
    }
}

/// A new machine's model.
pub open spec fn machine_start() -> MachineView {
    MachineView { current: RegionCrossingState::Idle, previous: None, transitions: 0 }
}

/// After any calls on a new machine, the current state is the target of
/// the last call that took effect (`Idle` if none did), and the previous
/// state is the one that call left (none if no call took effect); refused
/// transitions leave no trace.
pub proof fn lemma_state_follows_last_effective_call(cs: Seq<MachineCall>)
    ensures
        ({
            let m = after_calls(machine_start(), cs);
            match last_effective_call(machine_start(), cs) {
                None => m.current == RegionCrossingState::Idle && m.previous is None,
                Some(j) => 0 <= j < cs.len() && m.current == call_target(cs[j]) && m.previous == Some(
                    after_calls(machine_start(), cs.take(j)).current,
                ),
            }
        }),
    decreases cs.len(),
{
    if cs.len() > 0 {
        let d = cs.drop_last();
        lemma_state_follows_last_effective_call(d);
        if takes_effect(after_calls(machine_start(), d), cs.last()) {
            assert(cs.take(cs.len() - 1) =~= d);
        } else {
            match last_effective_call(machine_start(), d) {
                None => {},
                Some(j) => {
                    assert(d.take(j) =~= cs.take(j));
                    assert(d[j] == cs[j]);
                },
            }
        }
    }
}

/// The number of calls that took effect.
pub open spec fn effective_calls(m: MachineView, cs: Seq<MachineCall>) -> nat
    decreases cs.len(),
{
    if cs.len() == 0 {
        0
    } else {
        effective_calls(m, cs.drop_last()) + if takes_effect(after_calls(m, cs.drop_last()), cs.last()) {
            1nat
        } else {
            0nat
        }
    }
}

/// The transition count grows by one for a call that takes effect and stays
/// for a refused one, so it never decreases.
pub proof fn lemma_transition_count_step(m: MachineView, c: MachineCall)
    requires
        takes_effect(m, c) ==> m.transitions < u64::MAX,
    ensures
        after_call(m, c).transitions == m.transitions + (if takes_effect(m, c) {
            1int
        } else {
            0int
        }),
        after_call(m, c).transitions >= m.transitions,
{
}

/// After any calls on a new machine, fewer than `u64::MAX` of them, the
/// transition count is the number of calls that took effect: successful
/// transitions and resets.
pub proof fn lemma_transition_count_is_effective_calls(cs: Seq<MachineCall>)
    requires
        cs.len() < u64::MAX,
    ensures
        after_calls(machine_start(), cs).transitions == effective_calls(machine_start(), cs),
        effective_calls(machine_start(), cs) <= cs.len(),
    decreases cs.len(),
{
    if cs.len() > 0 {
        lemma_transition_count_is_effective_calls(cs.drop_last());
    }
}

/// Which transitions the machine takes: any state may fail, go back to
/// `Idle`, or stay put; a crossing starts (`Connecting`) from anywhere but
/// the middle of one (`MovingAgent`), so also from `Connected` for the next
/// crossing and from `Failed` for a retry; the agent moves only once
/// connecting, and the crossing completes only once the agent moves.
pub proof fn lemma_transition_table(a: RegionCrossingState, b: RegionCrossingState)
    ensures
        allowed(a, b) <==> (b == RegionCrossingState::Failed || b == RegionCrossingState::Idle || a == b
            || (b == RegionCrossingState::Connecting && a != RegionCrossingState::MovingAgent) || (b
            == RegionCrossingState::MovingAgent && a == RegionCrossingState::Connecting) || (b
            == RegionCrossingState::Connected && a == RegionCrossingState::MovingAgent)),
{
}

} // verus!
