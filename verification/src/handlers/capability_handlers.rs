//! Handlers of capability-related messages.

use vstd::prelude::*;

verus! {

/// Handles `EstateOwnerMessage` messages.
#[derive(Debug, Clone, Copy, PartialEq, Eq)]
pub struct EstateOwnerMessageHandler;

impl EstateOwnerMessageHandler {
    /// A handler.
    pub fn new() -> (h: Self)
        ensures
            h == EstateOwnerMessageHandler,
    {
        EstateOwnerMessageHandler
    }
}

} // verus!
