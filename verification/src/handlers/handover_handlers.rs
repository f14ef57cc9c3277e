//! Handlers of teleport and region-crossing messages that need no crossing manager.

use vstd::prelude::*;

verus! {

/// Handles `TeleportProgress` messages.
#[derive(Debug, Clone, Copy, PartialEq, Eq)]
pub struct TeleportProgressHandler;

impl TeleportProgressHandler {
    /// A handler.
    pub fn new() -> (h: Self)
        ensures
            h == TeleportProgressHandler,
    {
        TeleportProgressHandler
    }
}

/// Handles `TeleportFailed` messages.
#[derive(Debug, Clone, Copy, PartialEq, Eq)]
pub struct TeleportFailedHandler;

impl TeleportFailedHandler {
    /// A handler.
    pub fn new() -> (h: Self)
        ensures
            h == TeleportFailedHandler,
    {
        TeleportFailedHandler
    }
}

/// Handles `TeleportCancel` messages.
#[derive(Debug, Clone, Copy, PartialEq, Eq)]
pub struct TeleportCancelHandler;

impl TeleportCancelHandler {
    /// A handler.
    pub fn new() -> (h: Self)
        ensures
            h == TeleportCancelHandler,
    {
        TeleportCancelHandler
    }
}

/// Handles `EstablishAgentCommunication` messages.
#[derive(Debug, Clone, Copy, PartialEq, Eq)]
pub struct EstablishAgentCommunicationHandler;

impl EstablishAgentCommunicationHandler {
    /// A handler.
    pub fn new() -> (h: Self)
        ensures
            h == EstablishAgentCommunicationHandler,
    {
        EstablishAgentCommunicationHandler
    }
}

/// Handles `ConfirmEnableSimulator` messages.
#[derive(Debug, Clone, Copy, PartialEq, Eq)]
pub struct ConfirmEnableSimulatorHandler;

impl ConfirmEnableSimulatorHandler {
    /// A handler.
    pub fn new() -> (h: Self)
        ensures
            h == ConfirmEnableSimulatorHandler,
    {
        ConfirmEnableSimulatorHandler
    }
}

} // verus!
