//! Handlers of the messages that complete a login.

use vstd::prelude::*;
use crate::bytes_util::{be32_at, le32, push_le32, read_be32};
use crate::sl_compatibility::Vec3Bits;

verus! {

/// Handles `RegionHandshake` messages.
#[derive(Debug, Clone, Copy, PartialEq, Eq)]
pub struct RegionHandshakeHandler;

impl RegionHandshakeHandler {
    /// A handler.
    pub fn new() -> (h: Self)
        ensures
            h == RegionHandshakeHandler,
    {
        RegionHandshakeHandler
    }
}

/// Handles `StartPingCheck` messages.
#[derive(Debug, Clone, Copy, PartialEq, Eq)]
pub struct StartPingCheckHandler;

impl StartPingCheckHandler {
    /// A handler.
    pub fn new() -> (h: Self)
        ensures
            h == StartPingCheckHandler,
    {
        StartPingCheckHandler
    }
}

/// Handles `CompletePingCheck` messages.
#[derive(Debug, Clone, Copy, PartialEq, Eq)]
pub struct CompletePingCheckHandler;

impl CompletePingCheckHandler {
    /// A handler.
    pub fn new() -> (h: Self)
        ensures
            h == CompletePingCheckHandler,
    {
        CompletePingCheckHandler
    }
}

/// Handles `ObjectUpdate` messages.
#[derive(Debug, Clone, Copy, PartialEq, Eq)]
pub struct ObjectUpdateHandler;

impl ObjectUpdateHandler {
    /// A handler.
    pub fn new() -> (h: Self)
        ensures
            h == ObjectUpdateHandler,
    {
        ObjectUpdateHandler
    }
}

/// Handles `LayerData` messages.
#[derive(Debug, Clone, Copy, PartialEq, Eq)]
pub struct LayerDataHandler;

impl LayerDataHandler {
    /// A handler.
    pub fn new() -> (h: Self)
        ensures
            h == LayerDataHandler,
    {
        LayerDataHandler
    }
}

/// Handles `CoarseLocationUpdate` messages.
#[derive(Debug, Clone, Copy, PartialEq, Eq)]
pub struct CoarseLocationUpdateHandler;

impl CoarseLocationUpdateHandler {
    /// A handler.
    pub fn new() -> (h: Self)
        ensures
            h == CoarseLocationUpdateHandler,
    {
        CoarseLocationUpdateHandler
    }
}

/// Handles `EconomyData` messages.
#[derive(Debug, Clone, Copy, PartialEq, Eq)]
pub struct EconomyDataHandler;

impl EconomyDataHandler {
    /// A handler.
    pub fn new() -> (h: Self)
        ensures
            h == EconomyDataHandler,
    {
        EconomyDataHandler
    }
}

/// Handles `UUIDNameReply` messages.
#[derive(Debug, Clone, Copy, PartialEq, Eq)]
pub struct UUIDNameReplyHandler;

impl UUIDNameReplyHandler {
    /// A handler.
    pub fn new() -> (h: Self)
        ensures
            h == UUIDNameReplyHandler,
    {
        UUIDNameReplyHandler
    }
}

/// Handles `EnableSimulator` messages.
#[derive(Debug, Clone, Copy, PartialEq, Eq)]
pub struct EnableSimulatorHandler;

impl EnableSimulatorHandler {
    /// A handler.
    pub fn new() -> (h: Self)
        ensures
            h == EnableSimulatorHandler,
    {
        EnableSimulatorHandler
    }
}

/// Handles `AgentMovementComplete` messages.
#[derive(Debug, Clone, Copy, PartialEq, Eq)]
pub struct AgentMovementCompleteHandler;

impl AgentMovementCompleteHandler {
    /// A handler.
    pub fn new() -> (h: Self)
        ensures
            h == AgentMovementCompleteHandler,
    {
        AgentMovementCompleteHandler
    }
}

impl ObjectUpdateHandler {
    /// The position at the front of an object's data: three big-endian
    /// `f32` coordinates, given by their bit patterns; `None` when the data
    /// is shorter than 12 bytes.
    pub fn extract_position_from_object_data(data: &[u8]) -> (p: Option<Vec3Bits>)
        ensures
            data.len() < 12 ==> p is None,
            data.len() >= 12 ==> p == Some(
                Vec3Bits { x: be32_at(data@, 0), y: be32_at(data@, 4), z: be32_at(data@, 8) },
            ),
    {
        if data.len() < 12 {
            return None;
        }
        Some(Vec3Bits { x: read_be32(data, 0), y: read_be32(data, 4), z: read_be32(data, 8) })
    }
}

/// Bit patterns of the `f32` bandwidth limits (bits per second) sent in
/// `AgentThrottle` once the agent has arrived: resend, land, wind, cloud,
/// task, texture, asset.
pub open spec fn default_throttles() -> Seq<u32> {
    seq![0x48127C00u32, 0x48260400, 0, 0, 0x4888B800, 0x48D9C600, 0x4856D800]
}

/// Little-endian bytes of each value in turn.
pub open spec fn le32_all(xs: Seq<u32>) -> Seq<u8>
    decreases xs.len(),
{
    if xs.len() == 0 {
        Seq::empty()
    } else {
        le32_all(xs.drop_last()) + le32(xs.last())
    }
}

/// Control flags of the `AgentUpdate`s sent once the agent has arrived:
/// none, finish the animation, none.
pub open spec fn arrival_control_flags() -> Seq<u32> {
    seq![0u32, 0x4000_0000, 0]
}

impl AgentMovementCompleteHandler {
    /// The throttle block sent once the agent has arrived: the seven limits
    /// as little-endian `f32`s (28 bytes).
    pub fn throttle_data() -> (d: Vec<u8>)
        ensures
            d@ == le32_all(default_throttles()),
            d@.len() == 28,
    {
        let throttles: [u32; 7] = [0x48127C00, 0x48260400, 0, 0, 0x4888B800, 0x48D9C600, 0x4856D800];
        assert(throttles@ =~= default_throttles());
        let mut data: Vec<u8> = Vec::new();
        let mut i: usize = 0;
        while i < 7
            invariant
                i <= 7,
                throttles@ == default_throttles(),
                data@ == le32_all(throttles@.take(i as int)),
                data@.len() == 4 * i,
            decreases 7 - i,
        {
            push_le32(&mut data, throttles[i]);
            proof {
                assert(throttles@.take(i + 1).drop_last() =~= throttles@.take(i as int));
            }
            i = i + 1;
        }
        assert(throttles@.take(7) =~= throttles@);
        data
    }

    /// The control flags of the `AgentUpdate`s sent once the agent has arrived.
    pub fn control_flags_sequence() -> (f: Vec<u32>)
        ensures
            f@ == arrival_control_flags(),
    {
        let mut f: Vec<u32> = Vec::new();
        f.push(0);
        f.push(0x4000_0000);
        f.push(0);
        assert(f@ =~= arrival_control_flags());
        f
    }
}

} // verus!
