//! Handlers of time messages.

use vstd::prelude::*;

verus! {

/// Handles `SimulatorViewerTimeMessage` messages.
#[derive(Debug, Clone, Copy, PartialEq, Eq)]
pub struct SimulatorViewerTimeMessageHandler;

impl SimulatorViewerTimeMessageHandler {
    /// A handler.
    pub fn new() -> (h: Self)
        ensures
            h == SimulatorViewerTimeMessageHandler,
    {
        SimulatorViewerTimeMessageHandler
    }
}

} // verus!
