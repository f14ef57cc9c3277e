//! Hand decoding of the few LLUDP messages the client reads before the
//! full message catalogue is available: `RegionHandshake`, `KeepAlive`,
//! `AgentMovementComplete`, `AgentDataUpdate`, `HealthMessage` and
//! acknowledgements.

use vstd::prelude::*;
use crate::bytes_util::{be32_at, read_be32};
use crate::region_handshake::{
    RegionHandshakeData, parse_region_handshake, region_handshake_complete, region_handshake_fields,
};
use crate::sl_compatibility::PacketHeader;
use crate::uuid_text::{uuid_hyphenated, uuid_string_at};

verus! {

/// A decoded message.
#[derive(Debug, Clone)]
pub enum DecodedMessage {
    KeepAlive,
    Ack { sequence_id: u32 },
    AgentMovementComplete { agent_id: String, session_id: String },
    AgentDataUpdate { agent_id: String },
    HealthMessage,
    RegionHandshake(RegionHandshakeData),
}

/// Mathematical model of a decoded message (the handshake's fields are
/// described by `region_handshake_fields`).
pub enum DecodedView {
    KeepAlive,
    Ack { sequence_id: u32 },
    AgentMovementComplete { agent_id: Seq<char>, session_id: Seq<char> },
    AgentDataUpdate { agent_id: Seq<char> },
    HealthMessage,
    RegionHandshake,
}

impl View for DecodedMessage {
    type V = DecodedView;

    open spec fn view(&self) -> DecodedView {
        match self {
            DecodedMessage::KeepAlive => DecodedView::KeepAlive,
            DecodedMessage::Ack { sequence_id } => DecodedView::Ack { sequence_id: *sequence_id },
            DecodedMessage::AgentMovementComplete { agent_id, session_id } =>
                DecodedView::AgentMovementComplete { agent_id: agent_id@, session_id: session_id@ },
            DecodedMessage::AgentDataUpdate { agent_id } => DecodedView::AgentDataUpdate {
                agent_id: agent_id@,
            },
            DecodedMessage::HealthMessage => DecodedView::HealthMessage,
            DecodedMessage::RegionHandshake(_) => DecodedView::RegionHandshake,
        }
    }
}

/// Whether bytes 6 to 9 of `d` hold the four-byte message number `a b c e`.
pub open spec fn id_is(d: Seq<u8>, a: u8, b: u8, c: u8, e: u8) -> bool {
    d[6] == a && d[7] == b && d[8] == c && d[9] == e
}

/// The header of a packet of at least 7 bytes.
pub open spec fn header_of(d: Seq<u8>) -> PacketHeader {
    PacketHeader { sequence_id: be32_at(d, 1), flags: d[0] }
}

/// What decoding `d` gives: the header and message, or why it fails.
pub open spec fn decode_spec(d: Seq<u8>) -> Result<(PacketHeader, DecodedView), Seq<char>> {
    if d.len() < 7 {
        Err("Packet too short for message ID"@)
    } else if d[6] == 5 {
        if region_handshake_complete(d.skip(7)) {
            Ok((header_of(d), DecodedView::RegionHandshake))
        } else {
            Err("Failed to parse RegionHandshake"@)
        }
    } else if d.len() >= 10 && id_is(d, 0xFF, 0xFF, 0xFF, 0xFB) {
        Ok((header_of(d), DecodedView::KeepAlive))
    } else if d.len() >= 10 && id_is(d, 0xFF, 0xFF, 0x00, 0xF9) {
        if d.len() >= 42 {
            Ok(
                (
                    header_of(d),
                    DecodedView::AgentMovementComplete {
                        agent_id: uuid_hyphenated(d.subrange(10, 26)),
                        session_id: uuid_hyphenated(d.subrange(26, 42)),
                    },
                ),
            )
        } else {
            Err("Packet too short for AgentMovementComplete"@)
        }
    } else if d.len() >= 10 && id_is(d, 0xFF, 0xFF, 0x00, 0xFA) {
        if d.len() >= 34 {
            Err("ImprovedAvatarPowers not fully handled"@)
        } else {
            Err("Packet too short for ImprovedAvatarPowers"@)
        }
    } else if d.len() >= 10 && id_is(d, 0xFF, 0xFF, 0x00, 0x01) {
        if d.len() >= 14 {
            Err("StartPingCheck not fully handled"@)
        } else {
            Err("Packet too short for StartPingCheck"@)
        }
    } else if d.len() >= 10 && id_is(d, 0xFF, 0xFF, 0x01, 0x83) {
        if d.len() >= 26 {
            Ok(
                (
                    header_of(d),
                    DecodedView::AgentDataUpdate { agent_id: uuid_hyphenated(d.subrange(10, 26)) },
                ),
            )
        } else {
            Err("Packet too short for AgentDataUpdate"@)
        }
    } else if d.len() >= 10 && id_is(d, 0xFF, 0xFF, 0x00, 0x8A) {
        Ok((header_of(d), DecodedView::HealthMessage))
    } else if d[0] & 0x10 != 0 && d.len() >= 10 {
        Ok((header_of(d), DecodedView::Ack { sequence_id: be32_at(d, 6) }))
    } else {
        Err("Unsupported or unknown message type"@)
    }
}

/// Model of a decoding result.
pub open spec fn decode_result_view(r: Result<(PacketHeader, DecodedMessage), String>) -> Result<
    (PacketHeader, DecodedView),
    Seq<char>,
> {
    match r {
        Ok((h, m)) => Ok((h, m@)),
        Err(e) => Err(e@),
    }
}

/// Decoder of the messages read by hand.
#[derive(Debug, Clone, Copy)]
pub struct MessageCodec;

fn id_matches(data: &[u8], a: u8, b: u8, c: u8, e: u8) -> (r: bool)
    requires
        data.len() >= 10,
    ensures
        r == id_is(data@, a, b, c, e),
{
    data[6] == a && data[7] == b && data[8] == c && data[9] == e
}

impl MessageCodec {
    /// Decodes a packet: its header, then the message its number names;
    /// an acknowledgement when the ACK flag is set and nothing else matched.
    pub fn decode(data: &[u8]) -> (r: Result<(PacketHeader, DecodedMessage), String>)
        ensures
            decode_result_view(r) == decode_spec(data@),
            r matches Ok((_, DecodedMessage::RegionHandshake(rh))) ==> region_handshake_fields(data@.skip(7), rh),
    {
        if data.len() < 7 {
            return Err(String::from_str("Packet too short for message ID"));
        }
        let header = PacketHeader { sequence_id: read_be32(data, 1), flags: data[0] };
        let id_byte1 = data[6];
        if id_byte1 < 0xFF && id_byte1 == 5 {
            let payload = crate::bytes_util::copy_bytes(data, 7, data.len());
            assert(payload@ =~= data@.skip(7));
            return match parse_region_handshake(payload.as_slice()) {
                Some(rh) => Ok((header, DecodedMessage::RegionHandshake(rh))),
                None => Err(String::from_str("Failed to parse RegionHandshake")),
            };
        }
        if data.len() >= 10 {
            if id_matches(data, 0xFF, 0xFF, 0xFF, 0xFB) {
                return Ok((header, DecodedMessage::KeepAlive));
            }
            if id_matches(data, 0xFF, 0xFF, 0x00, 0xF9) {
                if data.len() >= 42 {
                    let agent_id = uuid_string_at(data, 10);
                    let session_id = uuid_string_at(data, 26);
                    return Ok((header, DecodedMessage::AgentMovementComplete { agent_id, session_id }));
                } else {
                    return Err(String::from_str("Packet too short for AgentMovementComplete"));
                }
            }
            if id_matches(data, 0xFF, 0xFF, 0x00, 0xFA) {
                if data.len() >= 34 {
                    return Err(String::from_str("ImprovedAvatarPowers not fully handled"));
                } else {
                    return Err(String::from_str("Packet too short for ImprovedAvatarPowers"));
                }
            }
            if id_matches(data, 0xFF, 0xFF, 0x00, 0x01) {
                if data.len() >= 14 {
                    return Err(String::from_str("StartPingCheck not fully handled"));
                } else {
                    return Err(String::from_str("Packet too short for StartPingCheck"));
                }
            }
            if id_matches(data, 0xFF, 0xFF, 0x01, 0x83) {
                if data.len() >= 26 {
                    let agent_id = uuid_string_at(data, 10);
                    return Ok((header, DecodedMessage::AgentDataUpdate { agent_id }));
                } else {
                    return Err(String::from_str("Packet too short for AgentDataUpdate"));
                }
            }
            if id_matches(data, 0xFF, 0xFF, 0x00, 0x8A) {
                return Ok((header, DecodedMessage::HealthMessage));
            }
        }
        if header.flags & 0x10 != 0 {
            if data.len() >= 10 {
                let acked_seq = read_be32(data, 6);
                return Ok((header, DecodedMessage::Ack { sequence_id: acked_seq }));
            }
        }
        Err(String::from_str("Unsupported or unknown message type"))
    }
}

} // verus!
