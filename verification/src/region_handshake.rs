//! Parser for the body of a `RegionHandshake` message.
//!
//! Layout (little-endian): `RegionFlags: u32`, `SimAccess: u8`,
//! `SimOwner: [u8; 16]`, `IsEstateManager: u8`, `WaterHeight: f32`,
//! `BillableFactor: f32`, `CacheID: [u8; 16]`, `RegionID: [u8; 16]`, four
//! terrain base IDs, four terrain detail IDs, four start heights and four
//! height ranges (`f32` each), then a one-byte length and that many bytes of
//! simulator version text. Floating-point values are carried as their IEEE-754
//! bit patterns.

use vstd::prelude::*;
use crate::bytes_util::{le32_at, read_le32};

verus! {

/// Offset of the simulator-version length byte.
pub const VERSION_LEN_OFFSET: usize = 222;

/// The fields of a `RegionHandshake` that the viewer keeps.
#[derive(Debug, Clone, PartialEq)]
pub struct RegionHandshakeData {
    pub region_flags: u32,
    pub sim_access: u8,
    /// Not carried by this message; always `"Unknown"`.
    pub sim_name: String,
    pub sim_owner: [u8; 16],
    pub is_estate_manager: bool,
    /// Bit pattern of the `f32` water height.
    pub water_height: u32,
    /// Bit pattern of the `f32` billable factor.
    pub billable_factor: u32,
    pub cache_id: [u8; 16],
    pub region_id: [u8; 16],
    /// Not carried by this message; always `"Unknown"`.
    pub region_name: String,
}

/// Whether `p` is long enough to hold a complete `RegionHandshake` body.
pub open spec fn region_handshake_complete(p: Seq<u8>) -> bool {
    p.len() > VERSION_LEN_OFFSET && p.len() >= VERSION_LEN_OFFSET + 1 + p[VERSION_LEN_OFFSET as int]
}

/// What `parse_region_handshake` reads from a complete body.
pub open spec fn region_handshake_fields(p: Seq<u8>, r: RegionHandshakeData) -> bool {
    &&& r.region_flags == le32_at(p, 0)
    &&& r.sim_access == p[4]
    &&& r.sim_owner@ == p.subrange(5, 21)
    &&& r.is_estate_manager == (p[21] != 0)
    &&& r.water_height == le32_at(p, 22)
    &&& r.billable_factor == le32_at(p, 26)
    &&& r.cache_id@ == p.subrange(30, 46)
    &&& r.region_id@ == p.subrange(46, 62)
    &&& r.sim_name@ == "Unknown"@
    &&& r.region_name@ == "Unknown"@
}

/// Copies 16 bytes at `off` into an array.
pub fn bytes16_at(d: &[u8], off: usize) -> (a: [u8; 16])
    requires
        off + 16 <= d@.len(),
    ensures
        a@ == d@.subrange(off as int, off + 16),
{
    let mut a: [u8; 16] = [0u8; 16];
    let mut i: usize = 0;
    while i < 16
        invariant
            i <= 16,
            off + 16 <= d.len(),
            forall|k: int| 0 <= k < i ==> a@[k] == d@[off + k],
        decreases 16 - i,
    {
        a[i] = d[off + i];
        i = i + 1;
    }
    assert(a@ =~= d@.subrange(off as int, off + 16));
    a
}

/// Parses a `RegionHandshake` body; `None` when it is cut short.
pub fn parse_region_handshake(payload: &[u8]) -> (r: Option<RegionHandshakeData>)
    ensures
        match r {
            Some(data) => region_handshake_complete(payload@) && region_handshake_fields(
                payload@,
                data,
            ),
            None => !region_handshake_complete(payload@),
        },
{
    if payload.len() <= VERSION_LEN_OFFSET {
        return None;
    }
    let version_len = payload[VERSION_LEN_OFFSET] as usize;
    if payload.len() - (VERSION_LEN_OFFSET + 1) < version_len {
        return None;
    }
    let region_flags = read_le32(payload, 0);
    let sim_access = payload[4];
    let sim_owner = bytes16_at(payload, 5);
    let is_estate_manager = payload[21] != 0;
    let water_height = read_le32(payload, 22);
    let billable_factor = read_le32(payload, 26);
    let cache_id = bytes16_at(payload, 30);
    let region_id = bytes16_at(payload, 46);
    Some(
        RegionHandshakeData {
            region_flags,
            sim_access,
            sim_name: String::from_str("Unknown"),
            sim_owner,
            is_estate_manager,
            water_height,
            billable_factor,
            cache_id,
            region_id,
            region_name: String::from_str("Unknown"),
        },
    )
}

/// The number four bytes spell, least significant first.
pub open spec fn le_value(b0: u8, b1: u8, b2: u8, b3: u8) -> int {
    b0 as int + b1 as int * 256 + b2 as int * 65536 + b3 as int * 16777216
}

proof fn lemma_le32_at_value(p: Seq<u8>, off: int)
    requires
        0 <= off,
        off + 4 <= p.len(),
    ensures
        le32_at(p, off) as int == le_value(p[off], p[off + 1], p[off + 2], p[off + 3]),
{
    let (b0, b1, b2, b3) = (p[off], p[off + 1], p[off + 2], p[off + 3]);
    assert(((b3 as u32) << 24u32) | ((b2 as u32) << 16u32) | ((b1 as u32) << 8u32) | (b0 as u32)
        == b0 as u32 + b1 as u32 * 256 + b2 as u32 * 65536 + b3 as u32 * 16777216) by (bit_vector);
}

/// What a `RegionHandshake` body gives: the region flags from its first
/// four bytes, least significant first; the access level from byte 4; the
/// owner from bytes 5 to 20; estate management when byte 21 is not zero;
/// the water height's and billable factor's bits from bytes 22 and 26, least
/// significant first; the cache ID from bytes 30 to 45 and the region ID
/// from bytes 46 to 61.
pub proof fn lemma_region_handshake_reads(p: Seq<u8>, r: RegionHandshakeData)
    requires
        region_handshake_complete(p),
        region_handshake_fields(p, r),
    ensures
        r.region_flags as int == le_value(p[0], p[1], p[2], p[3]),
        r.sim_access == p[4],
        r.sim_owner@ == p.subrange(5, 21),
        r.is_estate_manager == (p[21] != 0),
        r.water_height as int == le_value(p[22], p[23], p[24], p[25]),
        r.billable_factor as int == le_value(p[26], p[27], p[28], p[29]),
        r.cache_id@ == p.subrange(30, 46),
        r.region_id@ == p.subrange(46, 62),
{
    lemma_le32_at_value(p, 0);
    lemma_le32_at_value(p, 22);
    lemma_le32_at_value(p, 26);
}

} // verus!
