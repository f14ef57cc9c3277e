//! Handlers of asset transfer messages.

use vstd::prelude::*;

verus! {

/// Handles `TransferInfo` messages.
#[derive(Debug, Clone, Copy, PartialEq, Eq)]
pub struct TransferInfoHandler;

impl TransferInfoHandler {
    /// A handler.
    pub fn new() -> (h: Self)
        ensures
            h == TransferInfoHandler,
    {
        TransferInfoHandler
    }
}

/// Handles `TransferAbort` messages.
#[derive(Debug, Clone, Copy, PartialEq, Eq)]
pub struct TransferAbortHandler;

impl TransferAbortHandler {
    /// A handler.
    pub fn new() -> (h: Self)
        ensures
            h == TransferAbortHandler,
    {
        TransferAbortHandler
    }
}

/// Handles `ImageData` messages.
#[derive(Debug, Clone, Copy, PartialEq, Eq)]
pub struct ImageDataHandler;

impl ImageDataHandler {
    /// A handler.
    pub fn new() -> (h: Self)
        ensures
            h == ImageDataHandler,
    {
        ImageDataHandler
    }
}

/// Handles `LayerData` messages.
#[derive(Debug, Clone, Copy, PartialEq, Eq)]
pub struct LayerDataHandler;

impl LayerDataHandler {
    /// A handler.
    pub fn new() -> (h: Self)
        ensures
            h == LayerDataHandler,
    {
        LayerDataHandler
    }
}

} // verus!
