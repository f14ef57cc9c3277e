//! States of the networking core, of the network manager and of a circuit,
//! and the counts the handler registry reports.

use vstd::prelude::*;

verus! {

/// States of the networking core.
#[derive(Debug, Clone, Copy, PartialEq, Eq)]
pub enum CoreState {
    Idle,
    Connecting,
    Connected,
    Disconnecting,
    Disconnected,
}

/// States of the network manager.
#[derive(Debug, Clone, Copy, PartialEq, Eq)]
pub enum NetworkStatus {
    Idle,
    Authenticating,
    Connecting,
    Connected,
    Reconnecting,
    Disconnecting,
    Disconnected,
}

/// How many handlers the registry holds.
#[derive(Debug, Clone, Copy, PartialEq, Eq)]
pub struct HandlerStats {
    pub packet_types: usize,
    pub packet_handlers: usize,
    pub global_handlers: usize,
}

} // verus!
