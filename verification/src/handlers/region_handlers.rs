//! Handlers of the messages that describe a region's objects.

use vstd::prelude::*;

verus! {

/// Handles `ObjectUpdate` messages.
#[derive(Debug, Clone, Copy, PartialEq, Eq)]
pub struct ObjectUpdateHandler;

impl ObjectUpdateHandler {
    /// A handler.
    pub fn new() -> (h: Self)
        ensures
            h == ObjectUpdateHandler,
    {
        ObjectUpdateHandler
    }
}

/// Handles `ObjectUpdateCompressed` messages.
#[derive(Debug, Clone, Copy, PartialEq, Eq)]
pub struct ObjectUpdateCompressedHandler;

impl ObjectUpdateCompressedHandler {
    /// A handler.
    pub fn new() -> (h: Self)
        ensures
            h == ObjectUpdateCompressedHandler,
    {
        ObjectUpdateCompressedHandler
    }
}

/// Handles `ObjectUpdateCached` messages.
#[derive(Debug, Clone, Copy, PartialEq, Eq)]
pub struct ObjectUpdateCachedHandler;

impl ObjectUpdateCachedHandler {
    /// A handler.
    pub fn new() -> (h: Self)
        ensures
            h == ObjectUpdateCachedHandler,
    {
        ObjectUpdateCachedHandler
    }
}

/// Handles `KillObject` messages.
#[derive(Debug, Clone, Copy, PartialEq, Eq)]
pub struct KillObjectHandler;

impl KillObjectHandler {
    /// A handler.
    pub fn new() -> (h: Self)
        ensures
            h == KillObjectHandler,
    {
        KillObjectHandler
    }
}

/// Handles `ImprovedTerseObjectUpdate` messages.
#[derive(Debug, Clone, Copy, PartialEq, Eq)]
pub struct ImprovedTerseObjectUpdateHandler;

impl ImprovedTerseObjectUpdateHandler {
    /// A handler.
    pub fn new() -> (h: Self)
        ensures
            h == ImprovedTerseObjectUpdateHandler,
    {
        ImprovedTerseObjectUpdateHandler
    }
}

/// Handles `AttachedSound` messages.
#[derive(Debug, Clone, Copy, PartialEq, Eq)]
pub struct AttachedSoundHandler;

impl AttachedSoundHandler {
    /// A handler.
    pub fn new() -> (h: Self)
        ensures
            h == AttachedSoundHandler,
    {
        AttachedSoundHandler
    }
}

} // verus!
