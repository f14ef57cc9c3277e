//! Handlers of inventory messages.

use vstd::prelude::*;

verus! {

/// Handles `FetchInventoryDescendents` messages.
#[derive(Debug, Clone, Copy, PartialEq, Eq)]
pub struct FetchInventoryDescendentsHandler;

impl FetchInventoryDescendentsHandler {
    /// A handler.
    pub fn new() -> (h: Self)
        ensures
            h == FetchInventoryDescendentsHandler,
    {
        FetchInventoryDescendentsHandler
    }
}

/// Handles `InventoryDescendents` messages.
#[derive(Debug, Clone, Copy, PartialEq, Eq)]
pub struct InventoryDescendentsHandler;

impl InventoryDescendentsHandler {
    /// A handler.
    pub fn new() -> (h: Self)
        ensures
            h == InventoryDescendentsHandler,
    {
        InventoryDescendentsHandler
    }
}

/// Handles `UpdateInventoryItem` messages.
#[derive(Debug, Clone, Copy, PartialEq, Eq)]
pub struct UpdateInventoryItemHandler;

impl UpdateInventoryItemHandler {
    /// A handler.
    pub fn new() -> (h: Self)
        ensures
            h == UpdateInventoryItemHandler,
    {
        UpdateInventoryItemHandler
    }
}

} // verus!
