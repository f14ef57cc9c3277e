//! Handlers of raw sound messages.

use vstd::prelude::*;

verus! {

/// Handles `AttachedSoundRaw` messages.
#[derive(Debug, Clone, Copy, PartialEq, Eq)]
pub struct AttachedSoundRawHandler;

impl AttachedSoundRawHandler {
    /// A handler.
    pub fn new() -> (h: Self)
        ensures
            h == AttachedSoundRawHandler,
    {
        AttachedSoundRawHandler
    }

    /// The registry key of the messages it handles: `AttachedSound`, number
    /// 13 of the medium-frequency class.
    pub fn packet_type(&self) -> (k: u32)
        ensures
            k == 65549,
    {
        65549
    }

    /// The handler's name.
    pub fn name(&self) -> (s: &'static str)
        ensures
            s@ == "AttachedSoundRawHandler"@,
    {
        "AttachedSoundRawHandler"
    }
}

} // verus!
