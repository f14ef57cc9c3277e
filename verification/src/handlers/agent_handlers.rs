//! Handlers of agent messages.

use vstd::prelude::*;

verus! {

/// Handles `PacketAck` messages.
#[derive(Debug, Clone, Copy, PartialEq, Eq)]
pub struct PacketAckHandler;

impl PacketAckHandler {
    /// A handler.
    pub fn new() -> (h: Self)
        ensures
            h == PacketAckHandler,
    {
        PacketAckHandler
    }
}

/// Handles `ViewerEffect` messages.
#[derive(Debug, Clone, Copy, PartialEq, Eq)]
pub struct ViewerEffectHandler;

impl ViewerEffectHandler {
    /// A handler.
    pub fn new() -> (h: Self)
        ensures
            h == ViewerEffectHandler,
    {
        ViewerEffectHandler
    }
}

} // verus!
