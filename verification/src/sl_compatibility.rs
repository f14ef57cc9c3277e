//! Encoding and decoding of the handshake messages exchanged when a viewer
//! joins a simulator.
//!
//! A packet starts with a flags byte, a big-endian sequence number and an
//! offset byte; the message ID follows, one byte for high-frequency messages,
//! `0xFF` and one byte for medium, `0xFF 0xFF` and two big-endian bytes for
//! low, and four big-endian bytes for fixed-frequency messages.
//! Floating-point fields are carried as their IEEE-754 bit patterns.

use vstd::prelude::*;
use crate::bytes_util::{
    be32, be32_at, le32, le32_at, lemma_be32_roundtrip, push_be32, push_le32, read_be32, read_le32, u16_be,
    u32_be,
};
use crate::region_handshake::{parse_region_handshake, region_handshake_complete};
use crate::uuid_text::{push_uuid, uuid_hyphenated, uuid_parse, uuid_parse_str, uuid_string_at};

verus! {

/// The fixed part of every packet: its sequence number and flags.
#[derive(Debug, Clone, Copy, PartialEq, Eq)]
pub struct PacketHeader {
    pub sequence_id: u32,
    pub flags: u8,
}

/// A 3-vector of `f32` values, each carried as its IEEE-754 bit pattern.
#[derive(Debug, Clone, Copy, PartialEq, Eq)]
pub struct Vec3Bits {
    pub x: u32,
    pub y: u32,
    pub z: u32,
}

/// The messages of the circuit handshake.
#[derive(Debug, Clone, PartialEq)]
pub enum HandshakeMessage {
    UseCircuitCode { agent_id: String, session_id: String, circuit_code: u32 },
    UseCircuitCodeReply(bool),
    CompleteAgentMovement {
        agent_id: String,
        session_id: String,
        circuit_code: u32,
        position: Vec3Bits,
        look_at: Vec3Bits,
    },
    AgentMovementComplete { agent_id: String, session_id: String },
    RegionHandshake {
        region_name: String,
        region_id: [u8; 16],
        region_flags: u32,
        water_height: u32,
        sim_access: u8,
    },
    RegionHandshakeReply { agent_id: String, session_id: String, flags: u32 },
    AgentThrottle { agent_id: String, session_id: String, circuit_code: u32, throttle: [u32; 7] },
    AgentUpdate {
        agent_id: String,
        session_id: String,
        position: Vec3Bits,
        camera_at: Vec3Bits,
        camera_eye: Vec3Bits,
        controls: u32,
    },
    AgentDataUpdate { agent_id: String },
    HealthMessage,
    KeepAlive,
    Ack { sequence_id: u32 },
    ChatFromViewer { message: String, channel: String },
    ChatFromSimulator { sender: String, message: String, channel: String },
    OnlineNotification { agent_ids: Vec<String> },
    Logout,
}

/// Mathematical model of a handshake message.
pub enum HandshakeView {
    UseCircuitCode { agent_id: Seq<char>, session_id: Seq<char>, circuit_code: u32 },
    UseCircuitCodeReply(bool),
    CompleteAgentMovement {
        agent_id: Seq<char>,
        session_id: Seq<char>,
        circuit_code: u32,
        position: Vec3Bits,
        look_at: Vec3Bits,
    },
    AgentMovementComplete { agent_id: Seq<char>, session_id: Seq<char> },
    RegionHandshake {
        region_name: Seq<char>,
        region_id: Seq<u8>,
        region_flags: u32,
        water_height: u32,
        sim_access: u8,
    },
    RegionHandshakeReply { agent_id: Seq<char>, session_id: Seq<char>, flags: u32 },
    AgentThrottle {
        agent_id: Seq<char>,
        session_id: Seq<char>,
        circuit_code: u32,
        throttle: Seq<u32>,
    },
    AgentUpdate {
        agent_id: Seq<char>,
        session_id: Seq<char>,
        position: Vec3Bits,
        camera_at: Vec3Bits,
        camera_eye: Vec3Bits,
        controls: u32,
    },
    AgentDataUpdate { agent_id: Seq<char> },
    HealthMessage,
    KeepAlive,
    Ack { sequence_id: u32 },
    ChatFromViewer { message: Seq<char>, channel: Seq<char> },
    ChatFromSimulator { sender: Seq<char>, message: Seq<char>, channel: Seq<char> },
    OnlineNotification { agent_ids: Seq<Seq<char>> },
    Logout,
}

impl View for HandshakeMessage {
    type V = HandshakeView;

    open spec fn view(&self) -> HandshakeView {
        match self {
            HandshakeMessage::UseCircuitCode { agent_id, session_id, circuit_code } =>
                HandshakeView::UseCircuitCode {
                agent_id: agent_id@,
                session_id: session_id@,
                circuit_code: *circuit_code,
            },
            HandshakeMessage::UseCircuitCodeReply(b) => HandshakeView::UseCircuitCodeReply(*b),
            HandshakeMessage::CompleteAgentMovement {
                agent_id,
                session_id,
                circuit_code,
                position,
                look_at,
            } => HandshakeView::CompleteAgentMovement {
                agent_id: agent_id@,
                session_id: session_id@,
                circuit_code: *circuit_code,
                position: *position,
                look_at: *look_at,
            },
            HandshakeMessage::AgentMovementComplete { agent_id, session_id } =>
                HandshakeView::AgentMovementComplete {
                agent_id: agent_id@,
                session_id: session_id@,
            },
            HandshakeMessage::RegionHandshake {
                region_name,
                region_id,
                region_flags,
                water_height,
                sim_access,
            } => HandshakeView::RegionHandshake {
                region_name: region_name@,
                region_id: region_id@,
                region_flags: *region_flags,
                water_height: *water_height,
                sim_access: *sim_access,
            },
            HandshakeMessage::RegionHandshakeReply { agent_id, session_id, flags } =>
                HandshakeView::RegionHandshakeReply {
                agent_id: agent_id@,
                session_id: session_id@,
                flags: *flags,
            },
            HandshakeMessage::AgentThrottle { agent_id, session_id, circuit_code, throttle } =>
                HandshakeView::AgentThrottle {
                agent_id: agent_id@,
                session_id: session_id@,
                circuit_code: *circuit_code,
                throttle: throttle@,
            },
            HandshakeMessage::AgentUpdate {
                agent_id,
                session_id,
                position,
                camera_at,
                camera_eye,
                controls,
            } => HandshakeView::AgentUpdate {
                agent_id: agent_id@,
                session_id: session_id@,
                position: *position,
                camera_at: *camera_at,
                camera_eye: *camera_eye,
                controls: *controls,
            },
            HandshakeMessage::AgentDataUpdate { agent_id } => HandshakeView::AgentDataUpdate {
                agent_id: agent_id@,
            },
            HandshakeMessage::HealthMessage => HandshakeView::HealthMessage,
            HandshakeMessage::KeepAlive => HandshakeView::KeepAlive,
            HandshakeMessage::Ack { sequence_id } => HandshakeView::Ack {
                sequence_id: *sequence_id,
            },
            HandshakeMessage::ChatFromViewer { message, channel } => HandshakeView::ChatFromViewer {
                message: message@,
                channel: channel@,
            },
            HandshakeMessage::ChatFromSimulator { sender, message, channel } =>
                HandshakeView::ChatFromSimulator {
                sender: sender@,
                message: message@,
                channel: channel@,
            },
            HandshakeMessage::OnlineNotification { agent_ids } =>
                HandshakeView::OnlineNotification {
                agent_ids: agent_ids@.map_values(|s: String| s@),
            },
            HandshakeMessage::Logout => HandshakeView::Logout,
        }
    }
}

/// Why a packet could not be encoded or decoded (the kind and message of the
/// `std::io::Error` that the protocol layer reports).
#[derive(Debug, Clone, PartialEq)]
pub enum CodecError {
    InvalidData(String),
    InvalidInput(String),
}

/// Mathematical model of a codec error.
pub enum CodecErrorView {
    InvalidData(Seq<char>),
    InvalidInput(Seq<char>),
}

impl View for CodecError {
    type V = CodecErrorView;

    open spec fn view(&self) -> CodecErrorView {
        match self {
            CodecError::InvalidData(s) => CodecErrorView::InvalidData(s@),
            CodecError::InvalidInput(s) => CodecErrorView::InvalidInput(s@),
        }
    }
}

/// Flags byte, big-endian sequence number and the zero offset byte.
pub open spec fn header_bytes(h: PacketHeader) -> Seq<u8> {
    seq![h.flags] + be32(h.sequence_id) + seq![0u8]
}

/// Big-endian bytes of each value in turn.
pub open spec fn be32_all(xs: Seq<u32>) -> Seq<u8>
    decreases xs.len(),
{
    if xs.len() == 0 {
        Seq::empty()
    } else {
        be32(xs[0]) + be32_all(xs.drop_first())
    }
}

/// The agent and session IDs of a message, agent first.
pub open spec fn ids_agent_first(agent: Seq<char>, session: Seq<char>) -> Result<
    (Seq<u8>, Seq<u8>),
    CodecErrorView,
> {
    match uuid_parse(agent) {
        None => Err(CodecErrorView::InvalidData("Invalid agent_id UUID"@)),
        Some(a) => match uuid_parse(session) {
            None => Err(CodecErrorView::InvalidData("Invalid session_id UUID"@)),
            Some(s) => Ok((a, s)),
        },
    }
}

/// The agent and session IDs of a message, session first.
pub open spec fn ids_session_first(agent: Seq<char>, session: Seq<char>) -> Result<
    (Seq<u8>, Seq<u8>),
    CodecErrorView,
> {
    match uuid_parse(session) {
        None => Err(CodecErrorView::InvalidData("Invalid session_id UUID"@)),
        Some(s) => match uuid_parse(agent) {
            None => Err(CodecErrorView::InvalidData("Invalid agent_id UUID"@)),
            Some(a) => Ok((a, s)),
        },
    }
}

/// What `encode_handshake` produces.
pub open spec fn encode_spec(h: PacketHeader, m: HandshakeView) -> Result<Seq<u8>, CodecErrorView> {
    let pre = header_bytes(h);
    match m {
        HandshakeView::UseCircuitCode { agent_id, session_id, circuit_code } => match ids_session_first(
            agent_id,
            session_id,
        ) {
            Err(e) => Err(e),
            Ok((a, s)) => Ok(pre + seq![0xFFu8, 0xFFu8, 0x00u8, 0x03u8] + le32(circuit_code) + s + a),
        },
        HandshakeView::CompleteAgentMovement { agent_id, session_id, circuit_code, .. } =>
            match ids_agent_first(agent_id, session_id) {
            Err(e) => Err(e),
            Ok((a, s)) => Ok(pre + seq![0xFFu8, 0xFFu8, 0x00u8, 0xF9u8] + a + s + le32(circuit_code)),
        },
        HandshakeView::RegionHandshakeReply { agent_id, session_id, flags } => match ids_agent_first(
            agent_id,
            session_id,
        ) {
            Err(e) => Err(e),
            Ok((a, s)) => Ok(pre + seq![0xFFu8, 0xFFu8, 0x00u8, 0x95u8] + a + s + le32(flags)),
        },
        HandshakeView::AgentThrottle { agent_id, session_id, circuit_code, throttle } =>
            match ids_agent_first(agent_id, session_id) {
            Err(e) => Err(e),
            Ok((a, s)) => Ok(
                pre + seq![0xFFu8, 0xFFu8, 0x00u8, 0x51u8] + a + s + be32(circuit_code) + be32_all(
                    throttle,
                ),
            ),
        },
        HandshakeView::AgentUpdate {
            agent_id,
            session_id,
            position,
            camera_at,
            camera_eye,
            controls,
        } => match ids_agent_first(agent_id, session_id) {
            Err(e) => Err(e),
            Ok((a, s)) => Ok(
                pre + seq![0x04u8] + a + s + be32_all(
                    seq![
                        position.x,
                        position.y,
                        position.z,
                        camera_at.x,
                        camera_at.y,
                        camera_at.z,
                        camera_eye.x,
                        camera_eye.y,
                        camera_eye.z,
                        controls,
                    ],
                ),
            ),
        },
        HandshakeView::Ack { sequence_id } => Ok(
            pre + seq![0xFFu8, 0xFFu8, 0xFFu8, 0xFBu8, 1u8] + be32(sequence_id),
        ),
        _ => Err(CodecErrorView::InvalidInput("Message type not supported for encoding"@)),
    }
}

/// How many `0xFF` bytes (at most three) open the message ID.
pub open spec fn frequency_of(d: Seq<u8>) -> nat {
    if d[6] != 0xFF {
        0
    } else if d.len() < 8 || d[7] != 0xFF {
        1
    } else if d.len() < 9 || d[8] != 0xFF {
        2
    } else {
        3
    }
}

/// The text form of the 16 bytes at `off`.
pub open spec fn id_at(d: Seq<u8>, off: int) -> Seq<char> {
    uuid_hyphenated(d.subrange(off, off + 16))
}

/// `AgentMovementComplete` read from the body at `off`.
pub open spec fn movement_complete_at(d: Seq<u8>, h: PacketHeader, off: int) -> Result<
    (PacketHeader, HandshakeView),
    CodecErrorView,
> {
    if d.len() >= off + 32 {
        Ok(
            (
                h,
                HandshakeView::AgentMovementComplete {
                    agent_id: id_at(d, off),
                    session_id: id_at(d, off + 16),
                },
            ),
        )
    } else {
        Err(CodecErrorView::InvalidData("AgentMovementComplete packet too short"@))
    }
}

/// `RegionHandshake` read from the body at `off`.
pub open spec fn region_handshake_at(d: Seq<u8>, h: PacketHeader, off: int) -> Result<
    (PacketHeader, HandshakeView),
    CodecErrorView,
> {
    let p = d.skip(off);
    if region_handshake_complete(p) {
        Ok(
            (
                h,
                HandshakeView::RegionHandshake {
                    region_name: "Unknown"@,
                    region_id: p.subrange(46, 62),
                    region_flags: le32_at(p, 0),
                    water_height: le32_at(p, 22),
                    sim_access: p[4],
                },
            ),
        )
    } else {
        Err(CodecErrorView::InvalidData("Failed to parse RegionHandshake"@))
    }
}

/// The agent IDs of an `OnlineNotification`: up to `d[10]` IDs, as many as
/// the packet holds in full.
pub open spec fn online_ids(d: Seq<u8>) -> Seq<Seq<char>> {
    let k = if (d[10] as int) < (d.len() - 11) / 16 {
        d[10] as int
    } else {
        (d.len() - 11) / 16
    };
    Seq::new(k as nat, |i: int| id_at(d, 11 + 16 * i))
}

/// The nil UUID's text form.
pub open spec fn nil_id() -> Seq<char> {
    uuid_hyphenated(Seq::new(16, |i: int| 0u8))
}

/// What `decode_handshake` returns.
pub open spec fn decode_spec(d: Seq<u8>) -> Result<(PacketHeader, HandshakeView), CodecErrorView> {
    if d.len() < 7 {
        Err(CodecErrorView::InvalidData("Packet too short for message ID"@))
    } else {
        let h = PacketHeader { sequence_id: be32_at(d, 1), flags: d[0] };
        let f = frequency_of(d);
        if f == 1 && d.len() < 8 {
            Err(CodecErrorView::InvalidData("Packet too short for Medium frequency message ID"@))
        } else if f == 2 && d.len() < 10 {
            Err(CodecErrorView::InvalidData("Packet too short for Low frequency message ID"@))
        } else if f == 3 && d.len() < 10 {
            Err(CodecErrorView::InvalidData("Packet too short for Fixed frequency message ID"@))
        } else if f == 0 {
            if d[6] == 0 {
                region_handshake_at(d, h, 7)
            } else if d[6] == 11 {
                Ok(
                    (
                        h,
                        HandshakeView::AgentUpdate {
                            agent_id: nil_id(),
                            session_id: nil_id(),
                            position: Vec3Bits { x: 0, y: 0, z: 0 },
                            camera_at: Vec3Bits { x: 0, y: 0, z: 0 },
                            camera_eye: Vec3Bits { x: 0, y: 0, z: 0 },
                            controls: 0,
                        },
                    ),
                )
            } else if d[6] == 250 {
                movement_complete_at(d, h, 7)
            } else {
                Err(CodecErrorView::InvalidData("Unsupported or unknown message type"@))
            }
        } else if f == 1 {
            if d[7] == 6 {
                if d.len() >= 12 {
                    Ok((h, HandshakeView::Ack { sequence_id: be32_at(d, 8) }))
                } else {
                    Err(CodecErrorView::InvalidData("ACK list packet too short"@))
                }
            } else {
                Err(CodecErrorView::InvalidData("Unsupported or unknown message type"@))
            }
        } else if f == 2 {
            let id = u16_be(d[8], d[9]);
            if id == 1 {
                region_handshake_at(d, h, 10)
            } else if id == 3 {
                if d.len() >= 46 {
                    Ok(
                        (
                            h,
                            HandshakeView::UseCircuitCode {
                                agent_id: id_at(d, 30),
                                session_id: id_at(d, 14),
                                circuit_code: le32_at(d, 10),
                            },
                        ),
                    )
                } else {
                    Err(CodecErrorView::InvalidData("UseCircuitCode packet too short"@))
                }
            } else if id == 150 {
                if d.len() >= 11 {
                    Ok((h, HandshakeView::UseCircuitCodeReply(d[10] != 0)))
                } else {
                    Err(CodecErrorView::InvalidData("UseCircuitCodeReply packet too short"@))
                }
            } else if id == 387 {
                if d.len() >= 26 {
                    Ok((h, HandshakeView::AgentDataUpdate { agent_id: id_at(d, 10) }))
                } else {
                    Err(CodecErrorView::InvalidData("AgentDataUpdate packet too short"@))
                }
            } else if id == 322 {
                if d.len() >= 11 {
                    Ok((h, HandshakeView::OnlineNotification { agent_ids: online_ids(d) }))
                } else {
                    Err(CodecErrorView::InvalidData("OnlineNotification packet too short"@))
                }
            } else if id == 138 {
                Ok((h, HandshakeView::HealthMessage))
            } else if id == 250 || id == 249 {
                movement_complete_at(d, h, 10)
            } else {
                Err(CodecErrorView::InvalidData("Unsupported or unknown message type"@))
            }
        } else {
            if be32_at(d, 6) == 0xFFFF_FFFBu32 {
                if d.len() >= 15 {
                    Ok((h, HandshakeView::Ack { sequence_id: be32_at(d, 11) }))
                } else {
                    Err(CodecErrorView::InvalidData("PacketAck packet too short"@))
                }
            } else {
                Err(CodecErrorView::InvalidData("Unsupported or unknown message type"@))
            }
        }
    }
}

/// Model of a decode result.
pub open spec fn decode_result_view(r: Result<(PacketHeader, HandshakeMessage), CodecError>) -> Result<
    (PacketHeader, HandshakeView),
    CodecErrorView,
> {
    match r {
        Ok((h, m)) => Ok((h, m@)),
        Err(e) => Err(e@),
    }
}

/// Model of an encode result.
pub open spec fn encode_result_view(r: Result<Vec<u8>, CodecError>) -> Result<
    Seq<u8>,
    CodecErrorView,
> {
    match r {
        Ok(v) => Ok(v@),
        Err(e) => Err(e@),
    }
}

/// Encoding a list with one more value appends that value's four bytes.
pub proof fn lemma_be32_all_push(xs: Seq<u32>, x: u32)
    ensures
        be32_all(xs.push(x)) == be32_all(xs) + be32(x),
    decreases xs.len(),
{
    if xs.len() == 0 {
        assert(xs.push(x).drop_first() =~= Seq::<u32>::empty());
        assert(be32_all(Seq::<u32>::empty()) =~= Seq::<u8>::empty());
        assert(xs.push(x)[0] == x);
        assert(be32_all(xs.push(x)) =~= be32(x) + Seq::<u8>::empty());
        assert(be32_all(xs) =~= Seq::<u8>::empty());
    } else {
        lemma_be32_all_push(xs.drop_first(), x);
        assert(xs.push(x).drop_first() =~= xs.drop_first().push(x));
        assert(be32_all(xs.push(x)) =~= be32_all(xs) + be32(x));
    }
}

fn invalid_data(msg: &str) -> (e: CodecError)
    ensures
        e@ == CodecErrorView::InvalidData(msg@),
{
    CodecError::InvalidData(String::from_str(msg))
}

fn parse_ids_agent_first(agent: &String, session: &String) -> (r: Result<
    ([u8; 16], [u8; 16]),
    CodecError,
>)
    ensures
        match r {
            Ok((a, s)) => ids_agent_first(agent@, session@) == Ok::<
                (Seq<u8>, Seq<u8>),
                CodecErrorView,
            >((a@, s@)),
            Err(e) => ids_agent_first(agent@, session@) == Err::<
                (Seq<u8>, Seq<u8>),
                CodecErrorView,
            >(e@),
        },
{
    let a = match uuid_parse_str(agent.as_str()) {
        Some(a) => a,
        None => {
            return Err(invalid_data("Invalid agent_id UUID"));
        },
    };
    let s = match uuid_parse_str(session.as_str()) {
        Some(s) => s,
        None => {
            return Err(invalid_data("Invalid session_id UUID"));
        },
    };
    Ok((a, s))
}

fn parse_ids_session_first(agent: &String, session: &String) -> (r: Result<
    ([u8; 16], [u8; 16]),
    CodecError,
>)
    ensures
        match r {
            Ok((a, s)) => ids_session_first(agent@, session@) == Ok::<
                (Seq<u8>, Seq<u8>),
                CodecErrorView,
            >((a@, s@)),
            Err(e) => ids_session_first(agent@, session@) == Err::<
                (Seq<u8>, Seq<u8>),
                CodecErrorView,
            >(e@),
        },
        forall|a: Seq<u8>, s: Seq<u8>|
            #![trigger uuid_hyphenated(a), uuid_hyphenated(s)]
            a.len() == 16 && s.len() == 16 && agent@ == uuid_hyphenated(a) && session@
                == uuid_hyphenated(s) ==> uuid_parse(agent@) == Some(a) && uuid_parse(session@)
                == Some(s),
{
    let s = match uuid_parse_str(session.as_str()) {
        Some(s) => s,
        None => {
            return Err(invalid_data("Invalid session_id UUID"));
        },
    };
    let a = match uuid_parse_str(agent.as_str()) {
        Some(a) => a,
        None => {
            return Err(invalid_data("Invalid agent_id UUID"));
        },
    };
    Ok((a, s))
}

fn push4(out: &mut Vec<u8>, a: u8, b: u8, c: u8, d: u8)
    ensures
        final(out)@ == old(out)@ + seq![a, b, c, d],
{
    out.push(a);
    out.push(b);
    out.push(c);
    out.push(d);
    assert(out@ =~= old(out)@ + seq![a, b, c, d]);
}

fn push_vec3(out: &mut Vec<u8>, v: Vec3Bits)
    ensures
        final(out)@ == old(out)@ + be32(v.x) + be32(v.y) + be32(v.z),
{
    push_be32(out, v.x);
    push_be32(out, v.y);
    push_be32(out, v.z);
    assert(out@ =~= old(out)@ + be32(v.x) + be32(v.y) + be32(v.z));
}

pub struct SLMessageCodec;

impl SLMessageCodec {
    /// Encodes a handshake message after the packet header.
    ///
    /// Only `UseCircuitCode`, `CompleteAgentMovement`, `RegionHandshakeReply`,
    /// `AgentThrottle`, `AgentUpdate` and `Ack` can be encoded; agent and
    /// session IDs must parse as UUIDs.
    pub fn encode_handshake(header: &PacketHeader, message: &HandshakeMessage) -> (r: Result<
        Vec<u8>,
        CodecError,
    >)
        ensures
            encode_result_view(r) == encode_spec(*header, message@),
            message@ matches HandshakeView::UseCircuitCode { agent_id, session_id, .. } ==> forall|
                a: Seq<u8>,
                s: Seq<u8>,
            |
                #![trigger uuid_hyphenated(a), uuid_hyphenated(s)]
                a.len() == 16 && s.len() == 16 && agent_id == uuid_hyphenated(a) && session_id
                    == uuid_hyphenated(s) ==> uuid_parse(agent_id) == Some(a) && uuid_parse(
                    session_id,
                ) == Some(s),
    {
        let mut buf: Vec<u8> = Vec::new();
        buf.push(header.flags);
        push_be32(&mut buf, header.sequence_id);
        buf.push(0u8);
        let ghost pre = buf@;
        assert(pre =~= header_bytes(*header));
        match message {
            HandshakeMessage::UseCircuitCode { agent_id, session_id, circuit_code } => {
                let (a, s) = match parse_ids_session_first(agent_id, session_id) {
                    Ok(ids) => ids,
                    Err(e) => {
                        return Err(e);
                    },
                };
                push4(&mut buf, 0xFF, 0xFF, 0x00, 0x03);
                push_le32(&mut buf, *circuit_code);
                push_uuid(&mut buf, &s);
                push_uuid(&mut buf, &a);
                Ok(buf)
            },
            HandshakeMessage::CompleteAgentMovement { agent_id, session_id, circuit_code, .. } => {
                let (a, s) = match parse_ids_agent_first(agent_id, session_id) {
                    Ok(ids) => ids,
                    Err(e) => {
                        return Err(e);
                    },
                };
                push4(&mut buf, 0xFF, 0xFF, 0x00, 0xF9);
                push_uuid(&mut buf, &a);
                push_uuid(&mut buf, &s);
                push_le32(&mut buf, *circuit_code);
                Ok(buf)
            },
            HandshakeMessage::RegionHandshakeReply { agent_id, session_id, flags } => {
                let (a, s) = match parse_ids_agent_first(agent_id, session_id) {
                    Ok(ids) => ids,
                    Err(e) => {
                        return Err(e);
                    },
                };
                push4(&mut buf, 0xFF, 0xFF, 0x00, 0x95);
                push_uuid(&mut buf, &a);
                push_uuid(&mut buf, &s);
                push_le32(&mut buf, *flags);
                Ok(buf)
            },
            HandshakeMessage::AgentThrottle { agent_id, session_id, circuit_code, throttle } => {
                let (a, s) = match parse_ids_agent_first(agent_id, session_id) {
                    Ok(ids) => ids,
                    Err(e) => {
                        return Err(e);
                    },
                };
                push4(&mut buf, 0xFF, 0xFF, 0x00, 0x51);
                push_uuid(&mut buf, &a);
                push_uuid(&mut buf, &s);
                push_be32(&mut buf, *circuit_code);
                let ghost mid = buf@;
                let mut i: usize = 0;
                assert(be32_all(throttle@.take(0)) =~= Seq::<u8>::empty());
                while i < 7
                    invariant
                        i <= 7,
                        throttle@.len() == 7,
                        buf@ == mid + be32_all(throttle@.take(i as int)),
                    decreases 7 - i,
                {
                    proof {
                        assert(throttle@.take(i + 1) =~= throttle@.take(i as int).push(
                            throttle@[i as int],
                        ));
                        lemma_be32_all_push(throttle@.take(i as int), throttle@[i as int]);
                    }
                    push_be32(&mut buf, throttle[i]);
                    i = i + 1;
                }
                assert(throttle@.take(7) =~= throttle@);
                Ok(buf)
            },
            HandshakeMessage::AgentUpdate {
                agent_id,
                session_id,
                position,
                camera_at,
                camera_eye,
                controls,
            } => {
                let (a, s) = match parse_ids_agent_first(agent_id, session_id) {
                    Ok(ids) => ids,
                    Err(e) => {
                        return Err(e);
                    },
                };
                buf.push(0x04u8);
                push_uuid(&mut buf, &a);
                push_uuid(&mut buf, &s);
                push_vec3(&mut buf, *position);
                push_vec3(&mut buf, *camera_at);
                push_vec3(&mut buf, *camera_eye);
                push_be32(&mut buf, *controls);
                proof {
                    reveal_with_fuel(be32_all, 11);
                    let xs = seq![
                        position.x,
                        position.y,
                        position.z,
                        camera_at.x,
                        camera_at.y,
                        camera_at.z,
                        camera_eye.x,
                        camera_eye.y,
                        camera_eye.z,
                        *controls,
                    ];
                    assert(be32_all(xs) =~= be32(position.x) + be32(position.y) + be32(position.z)
                        + be32(camera_at.x) + be32(camera_at.y) + be32(camera_at.z) + be32(
                        camera_eye.x,
                    ) + be32(camera_eye.y) + be32(camera_eye.z) + be32(*controls));
                    assert(buf@ =~= pre + seq![0x04u8] + a@ + s@ + be32_all(xs));
                }
                Ok(buf)
            },
            HandshakeMessage::Ack { sequence_id } => {
                push4(&mut buf, 0xFF, 0xFF, 0xFF, 0xFB);
                buf.push(1u8);
                push_be32(&mut buf, *sequence_id);
                assert(buf@ =~= pre + seq![0xFFu8, 0xFFu8, 0xFFu8, 0xFBu8, 1u8] + be32(
                    *sequence_id,
                ));
                Ok(buf)
            },
            _ => Err(
                CodecError::InvalidInput(
                    String::from_str("Message type not supported for encoding"),
                ),
            ),
        }
    }
}

fn movement_complete_from(data: &[u8], h: PacketHeader, off: usize) -> (r: Result<
    (PacketHeader, HandshakeMessage),
    CodecError,
>)
    requires
        off <= 10,
    ensures
        decode_result_view(r) == movement_complete_at(data@, h, off as int),
{
    if data.len() >= off + 32 {
        let agent_id = uuid_string_at(data, off);
        let session_id = uuid_string_at(data, off + 16);
        Ok((h, HandshakeMessage::AgentMovementComplete { agent_id, session_id }))
    } else {
        Err(invalid_data("AgentMovementComplete packet too short"))
    }
}

fn region_handshake_from(data: &[u8], h: PacketHeader, off: usize) -> (r: Result<
    (PacketHeader, HandshakeMessage),
    CodecError,
>)
    requires
        off <= data.len(),
    ensures
        decode_result_view(r) == region_handshake_at(data@, h, off as int),
{
    let body = crate::bytes_util::copy_bytes(data, off, data.len());
    assert(body@ =~= data@.skip(off as int));
    match parse_region_handshake(body.as_slice()) {
        Some(rh) => Ok(
            (
                h,
                HandshakeMessage::RegionHandshake {
                    region_name: rh.region_name,
                    region_id: rh.region_id,
                    region_flags: rh.region_flags,
                    water_height: rh.water_height,
                    sim_access: rh.sim_access,
                },
            ),
        ),
        None => Err(invalid_data("Failed to parse RegionHandshake")),
    }
}

fn online_ids_from(data: &[u8]) -> (r: Vec<String>)
    requires
        data.len() >= 11,
    ensures
        r@.map_values(|s: String| s@) == online_ids(data@),
{
    let count = data[10];
    let mut ids: Vec<String> = Vec::new();
    let mut offset: usize = 11;
    let mut k: u8 = 0;
    let ghost full = (data@.len() - 11) / 16;
    while k < count
        invariant
            data.len() >= 11,
            count == data@[10],
            full == (data@.len() - 11) / 16,
            k <= count,
            offset == 11 + 16 * ids@.len(),
            ids@.len() == if (k as int) < full { k as int } else { full },
            forall|i: int|
                0 <= i < ids@.len() ==> #[trigger] ids@[i]@ == id_at(data@, 11 + 16 * i),
        decreases count - k,
    {
        if offset + 16 <= data.len() {
            let ghost before = ids@;
            ids.push(uuid_string_at(data, offset));
            offset = offset + 16;
        }
        k = k + 1;
    }
    assert(r_view_eq(ids@, online_ids(data@)));
    ids
}

spec fn r_view_eq(ids: Seq<String>, expected: Seq<Seq<char>>) -> bool {
    ids.map_values(|s: String| s@) =~= expected
}

impl SLMessageCodec {
    /// Decodes a packet into its header and handshake message.
    pub fn decode_handshake(data: &[u8]) -> (r: Result<(PacketHeader, HandshakeMessage), CodecError>)
        ensures
            decode_result_view(r) == decode_spec(data@),
    {
        if data.len() < 7 {
            return Err(invalid_data("Packet too short for message ID"));
        }
        let header = PacketHeader { sequence_id: read_be32(data, 1), flags: data[0] };
        let frequency: usize = if data[6] != 0xFF {
            0
        } else if data.len() < 8 || data[7] != 0xFF {
            1
        } else if data.len() < 9 || data[8] != 0xFF {
            2
        } else {
            3
        };
        if frequency == 1 && data.len() < 8 {
            return Err(invalid_data("Packet too short for Medium frequency message ID"));
        }
        if frequency == 2 && data.len() < 10 {
            return Err(invalid_data("Packet too short for Low frequency message ID"));
        }
        if frequency == 3 && data.len() < 10 {
            return Err(invalid_data("Packet too short for Fixed frequency message ID"));
        }
        if frequency == 0 {
            if data[6] == 0 {
                region_handshake_from(data, header, 7)
            } else if data[6] == 11 {
                let zero: [u8; 16] = [0u8; 16];
                let nil = uuid_string_at(&zero, 0);
                assert(zero@.subrange(0, 16) =~= Seq::new(16, |i: int| 0u8));
                let v = Vec3Bits { x: 0, y: 0, z: 0 };
                Ok(
                    (
                        header,
                        HandshakeMessage::AgentUpdate {
                            agent_id: nil.clone(),
                            session_id: nil,
                            position: v,
                            camera_at: v,
                            camera_eye: v,
                            controls: 0,
                        },
                    ),
                )
            } else if data[6] == 250 {
                movement_complete_from(data, header, 7)
            } else {
                Err(invalid_data("Unsupported or unknown message type"))
            }
        } else if frequency == 1 {
            if data[7] == 6 {
                if data.len() >= 12 {
                    Ok((header, HandshakeMessage::Ack { sequence_id: read_be32(data, 8) }))
                } else {
                    Err(invalid_data("ACK list packet too short"))
                }
            } else {
                Err(invalid_data("Unsupported or unknown message type"))
            }
        } else if frequency == 2 {
            let id: u16 = ((data[8] as u16) << 8u16) | (data[9] as u16);
            if id == 1 {
                region_handshake_from(data, header, 10)
            } else if id == 3 {
                if data.len() >= 46 {
                    let circuit_code = read_le32(data, 10);
                    let session_id = uuid_string_at(data, 14);
                    let agent_id = uuid_string_at(data, 30);
                    Ok((header, HandshakeMessage::UseCircuitCode { agent_id, session_id, circuit_code }))
                } else {
                    Err(invalid_data("UseCircuitCode packet too short"))
                }
            } else if id == 150 {
                if data.len() >= 11 {
                    Ok((header, HandshakeMessage::UseCircuitCodeReply(data[10] != 0)))
                } else {
                    Err(invalid_data("UseCircuitCodeReply packet too short"))
                }
            } else if id == 387 {
                if data.len() >= 26 {
                    let agent_id = uuid_string_at(data, 10);
                    Ok((header, HandshakeMessage::AgentDataUpdate { agent_id }))
                } else {
                    Err(invalid_data("AgentDataUpdate packet too short"))
                }
            } else if id == 322 {
                if data.len() >= 11 {
                    let agent_ids = online_ids_from(data);
                    Ok((header, HandshakeMessage::OnlineNotification { agent_ids }))
                } else {
                    Err(invalid_data("OnlineNotification packet too short"))
                }
            } else if id == 138 {
                Ok((header, HandshakeMessage::HealthMessage))
            } else if id == 250 || id == 249 {
                movement_complete_from(data, header, 10)
            } else {
                Err(invalid_data("Unsupported or unknown message type"))
            }
        } else {
            if read_be32(data, 6) == 0xFFFF_FFFBu32 {
                if data.len() >= 15 {
                    Ok((header, HandshakeMessage::Ack { sequence_id: read_be32(data, 11) }))
                } else {
                    Err(invalid_data("PacketAck packet too short"))
                }
            } else {
                Err(invalid_data("Unsupported or unknown message type"))
            }
        }
    }
}

proof fn lemma_header_roundtrip(h: PacketHeader, d: Seq<u8>)
    requires
        d.len() >= 6,
        d.take(6) == header_bytes(h),
    ensures
        d[0] == h.flags,
        be32_at(d, 1) == h.sequence_id,
{
    assert(d[0] == d.take(6)[0]);
    assert(d[1] == d.take(6)[1]);
    assert(d[2] == d.take(6)[2]);
    assert(d[3] == d.take(6)[3]);
    assert(d[4] == d.take(6)[4]);
    assert(d[1] == header_bytes(h)[1]);
    assert(d[2] == header_bytes(h)[2]);
    assert(d[3] == header_bytes(h)[3]);
    assert(d[4] == header_bytes(h)[4]);
    lemma_be32_roundtrip(h.sequence_id);
}

proof fn lemma_le32_roundtrip(x: u32)
    ensures
        crate::bytes_util::u32_le(x as u8, (x >> 8u32) as u8, (x >> 16u32) as u8, (x >> 24u32) as u8)
            == x,
{
    lemma_be32_roundtrip(x);
}

/// Encoding a `UseCircuitCode` whose IDs parse as UUIDs, then decoding the
/// bytes, gives back the header, the circuit code, and both IDs in their
/// hyphenated lower-case form.
pub proof fn lemma_use_circuit_code_roundtrip(
    h: PacketHeader,
    agent_id: Seq<char>,
    session_id: Seq<char>,
    circuit_code: u32,
    agent: Seq<u8>,
    session: Seq<u8>,
)
    requires
        uuid_parse(agent_id) == Some(agent),
        uuid_parse(session_id) == Some(session),
        agent.len() == 16,
        session.len() == 16,
    ensures
        match encode_spec(h, HandshakeView::UseCircuitCode { agent_id, session_id, circuit_code }) {
            Ok(bytes) => decode_spec(bytes) == Ok::<(PacketHeader, HandshakeView), CodecErrorView>(
                (
                    h,
                    HandshakeView::UseCircuitCode {
                        agent_id: uuid_hyphenated(agent),
                        session_id: uuid_hyphenated(session),
                        circuit_code,
                    },
                ),
            ),
            Err(_) => false,
        },
{
    let d = header_bytes(h) + seq![0xFFu8, 0xFFu8, 0x00u8, 0x03u8] + le32(circuit_code) + session
        + agent;
    assert(encode_spec(h, HandshakeView::UseCircuitCode { agent_id, session_id, circuit_code })
        == Ok::<Seq<u8>, CodecErrorView>(d));
    assert(d.len() == 46);
    assert(d.take(6) =~= header_bytes(h));
    lemma_header_roundtrip(h, d);
    assert(d[6] == 0xFF && d[7] == 0xFF && d[8] == 0 && d[9] == 3);
    assert(u16_be(0u8, 3u8) == 3u16) by (bit_vector);
    lemma_le32_roundtrip(circuit_code);
    assert(le32_at(d, 10) == circuit_code);
    assert(d.subrange(14, 30) =~= session);
    assert(d.subrange(30, 46) =~= agent);
}

/// Encoding an `Ack`, then decoding the bytes, gives back the header and the
/// acknowledged sequence number.
pub proof fn lemma_ack_roundtrip(h: PacketHeader, sequence_id: u32)
    ensures
        match encode_spec(h, HandshakeView::Ack { sequence_id }) {
            Ok(bytes) => decode_spec(bytes) == Ok::<(PacketHeader, HandshakeView), CodecErrorView>(
                (h, HandshakeView::Ack { sequence_id }),
            ),
            Err(_) => false,
        },
{
    let d = header_bytes(h) + seq![0xFFu8, 0xFFu8, 0xFFu8, 0xFBu8, 1u8] + be32(sequence_id);
    assert(d.len() == 15);
    assert(d.take(6) =~= header_bytes(h));
    lemma_header_roundtrip(h, d);
    assert(d[6] == 0xFF && d[7] == 0xFF && d[8] == 0xFF && d[9] == 0xFB);
    assert(u32_be(0xFFu8, 0xFFu8, 0xFFu8, 0xFBu8) == 0xFFFF_FFFBu32) by (bit_vector);
    lemma_be32_roundtrip(sequence_id);
    assert(be32_at(d, 11) == sequence_id);
}

/// A `CompleteAgentMovement` whose IDs parse as UUIDs is read back, by the
/// decoder, as an `AgentMovementComplete` with the same header and IDs.
#[verifier::rlimit(60)]
pub proof fn lemma_complete_agent_movement_reads_back(
    h: PacketHeader,
    agent_id: Seq<char>,
    session_id: Seq<char>,
    circuit_code: u32,
    position: Vec3Bits,
    look_at: Vec3Bits,
    agent: Seq<u8>,
    session: Seq<u8>,
)
    requires
        uuid_parse(agent_id) == Some(agent),
        uuid_parse(session_id) == Some(session),
        agent.len() == 16,
        session.len() == 16,
    ensures
        match encode_spec(
            h,
            HandshakeView::CompleteAgentMovement {
                agent_id,
                session_id,
                circuit_code,
                position,
                look_at,
            },
        ) {
            Ok(bytes) => decode_spec(bytes) == Ok::<(PacketHeader, HandshakeView), CodecErrorView>(
                (
                    h,
                    HandshakeView::AgentMovementComplete {
                        agent_id: uuid_hyphenated(agent),
                        session_id: uuid_hyphenated(session),
                    },
                ),
            ),
            Err(_) => false,
        },
{
    let d = header_bytes(h) + seq![0xFFu8, 0xFFu8, 0x00u8, 0xF9u8] + agent + session + le32(
        circuit_code,
    );
    assert(d.len() == 46);
    assert(d.take(6) =~= header_bytes(h));
    lemma_header_roundtrip(h, d);
    assert(d[6] == 0xFF && d[7] == 0xFF && d[8] == 0 && d[9] == 0xF9);
    assert(u16_be(0u8, 0xF9u8) == 249u16) by (bit_vector);
    assert(d.subrange(10, 26) =~= agent);
    assert(d.subrange(26, 42) =~= session);
    let h2 = PacketHeader { sequence_id: be32_at(d, 1), flags: d[0] };
    assert(h2 == h);
    assert(frequency_of(d) == 2);
    assert(decode_spec(d) == movement_complete_at(d, h2, 10));
}

/// The bytes of the sample agent ID `84c4017d-f3a1-4565-837d-23a67ad0ebd7`.
spec fn sample_agent_bytes() -> Seq<u8> {
    seq![
        0x84u8, 0xc4u8, 0x01u8, 0x7du8, 0xf3u8, 0xa1u8, 0x45u8, 0x65u8,
        0x83u8, 0x7du8, 0x23u8, 0xa6u8, 0x7au8, 0xd0u8, 0xebu8, 0xd7u8,
    ]
}

/// The bytes of the sample session ID `12345678-1234-1234-1234-123456789012`.
spec fn sample_session_bytes() -> Seq<u8> {
    seq![
        0x12u8, 0x34u8, 0x56u8, 0x78u8, 0x12u8, 0x34u8, 0x12u8, 0x34u8,
        0x12u8, 0x34u8, 0x12u8, 0x34u8, 0x56u8, 0x78u8, 0x90u8, 0x12u8,
    ]
}

/// The sample IDs are the hyphenated forms of their bytes.
proof fn lemma_sample_ids_hyphenated()
    ensures
        uuid_hyphenated(sample_agent_bytes()) == "84c4017d-f3a1-4565-837d-23a67ad0ebd7"@,
        uuid_hyphenated(sample_session_bytes()) == "12345678-1234-1234-1234-123456789012"@,
{
    let a = sample_agent_bytes();
    let s = sample_session_bytes();
    reveal_strlit("84c4017d-f3a1-4565-837d-23a67ad0ebd7");
    reveal_strlit("12345678-1234-1234-1234-123456789012");
    reveal_with_fuel(crate::uuid_text::hex_of, 7);
    assert(a.subrange(0, 4) =~= seq![0x84u8, 0xc4u8, 0x01u8, 0x7du8]);
    assert(a.subrange(4, 6) =~= seq![0xf3u8, 0xa1u8]);
    assert(a.subrange(6, 8) =~= seq![0x45u8, 0x65u8]);
    assert(a.subrange(8, 10) =~= seq![0x83u8, 0x7du8]);
    assert(a.subrange(10, 16) =~= seq![0x23u8, 0xa6u8, 0x7au8, 0xd0u8, 0xebu8, 0xd7u8]);
    assert(uuid_hyphenated(a) =~= "84c4017d-f3a1-4565-837d-23a67ad0ebd7"@);
    assert(s.subrange(0, 4) =~= seq![0x12u8, 0x34u8, 0x56u8, 0x78u8]);
    assert(s.subrange(4, 6) =~= seq![0x12u8, 0x34u8]);
    assert(s.subrange(6, 8) =~= seq![0x12u8, 0x34u8]);
    assert(s.subrange(8, 10) =~= seq![0x12u8, 0x34u8]);
    assert(s.subrange(10, 16) =~= seq![0x12u8, 0x34u8, 0x56u8, 0x78u8, 0x90u8, 0x12u8]);
    assert(uuid_hyphenated(s) =~= "12345678-1234-1234-1234-123456789012"@);
}

impl SLMessageCodec {
    /// Encodes a sample `UseCircuitCode` packet and decodes it again, giving
    /// the decoded header and message (the caller reports them). The sample
    /// survives the round trip: what comes back is the header and message
    /// that were encoded.
    pub fn test_debug_messages() -> (r: Result<(PacketHeader, HandshakeMessage), CodecError>)
        ensures
            r matches Ok((h, m)) && h == (PacketHeader { sequence_id: 12345, flags: 0x40 })
                && m@ == (HandshakeView::UseCircuitCode {
                agent_id: "84c4017d-f3a1-4565-837d-23a67ad0ebd7"@,
                session_id: "12345678-1234-1234-1234-123456789012"@,
                circuit_code: 98765,
            }),
    {
        let header = PacketHeader { sequence_id: 12345, flags: 0x40 };
        let message = HandshakeMessage::UseCircuitCode {
            agent_id: String::from_str("84c4017d-f3a1-4565-837d-23a67ad0ebd7"),
            session_id: String::from_str("12345678-1234-1234-1234-123456789012"),
            circuit_code: 98765,
        };
        let encoded_result = Self::encode_handshake(&header, &message);
        let ghost agent = sample_agent_bytes();
        let ghost session = sample_session_bytes();
        proof {
            lemma_sample_ids_hyphenated();
            assert(uuid_parse("84c4017d-f3a1-4565-837d-23a67ad0ebd7"@) == Some(agent));
            assert(uuid_parse("12345678-1234-1234-1234-123456789012"@) == Some(session));
            lemma_use_circuit_code_roundtrip(
                header,
                "84c4017d-f3a1-4565-837d-23a67ad0ebd7"@,
                "12345678-1234-1234-1234-123456789012"@,
                98765,
                agent,
                session,
            );
        }
        let encoded = match encoded_result {
            Ok(bytes) => bytes,
            Err(e) => {
                return Err(e);
            },
        };
        Self::decode_handshake(encoded.as_slice())
    }
}

/// The number four bytes spell, most significant first.
pub open spec fn be_number(b0: u8, b1: u8, b2: u8, b3: u8) -> int {
    b0 as int * 16777216 + b1 as int * 65536 + b2 as int * 256 + b3 as int
}

/// The number four bytes spell, least significant first.
pub open spec fn le_number(b0: u8, b1: u8, b2: u8, b3: u8) -> int {
    b0 as int + b1 as int * 256 + b2 as int * 65536 + b3 as int * 16777216
}

proof fn lemma_be32_spells(x: u32)
    ensures
        be_number(be32(x)[0], be32(x)[1], be32(x)[2], be32(x)[3]) == x,
{
    let b0 = (x >> 24u32) as u8;
    let b1 = (x >> 16u32) as u8;
    let b2 = (x >> 8u32) as u8;
    let b3 = x as u8;
    assert(b0 as int * 16777216 + b1 as int * 65536 + b2 as int * 256 + b3 as int == x) by (bit_vector)
        requires
            b0 == (x >> 24u32) as u8,
            b1 == (x >> 16u32) as u8,
            b2 == (x >> 8u32) as u8,
            b3 == x as u8,
    ;
}

proof fn lemma_le32_spells(x: u32)
    ensures
        le_number(le32(x)[0], le32(x)[1], le32(x)[2], le32(x)[3]) == x,
{
    let b0 = x as u8;
    let b1 = (x >> 8u32) as u8;
    let b2 = (x >> 16u32) as u8;
    let b3 = (x >> 24u32) as u8;
    assert(b0 as int + b1 as int * 256 + b2 as int * 65536 + b3 as int * 16777216 == x) by (bit_vector)
        requires
            b0 == x as u8,
            b1 == (x >> 8u32) as u8,
            b2 == (x >> 16u32) as u8,
            b3 == (x >> 24u32) as u8,
    ;
}

proof fn lemma_u32_be_number(b0: u8, b1: u8, b2: u8, b3: u8)
    ensures
        u32_be(b0, b1, b2, b3) as int == be_number(b0, b1, b2, b3),
        crate::bytes_util::u32_le(b0, b1, b2, b3) as int == le_number(b0, b1, b2, b3),
{
    assert(((b0 as u32) << 24u32) | ((b1 as u32) << 16u32) | ((b2 as u32) << 8u32) | (b3 as u32)
        == b0 as u32 * 16777216 + b1 as u32 * 65536 + b2 as u32 * 256 + b3 as u32) by (bit_vector);
    assert(((b3 as u32) << 24u32) | ((b2 as u32) << 16u32) | ((b1 as u32) << 8u32) | (b0 as u32)
        == b3 as u32 * 16777216 + b2 as u32 * 65536 + b1 as u32 * 256 + b0 as u32) by (bit_vector);
}

/// Whether `b` starts with the packet header of `h`: the flags, the
/// sequence number most significant byte first, and a zero offset.
pub open spec fn starts_with_header(b: Seq<u8>, h: PacketHeader) -> bool {
    &&& b.len() >= 6
    &&& b[0] == h.flags
    &&& be_number(b[1], b[2], b[3], b[4]) == h.sequence_id
    &&& b[5] == 0
}

proof fn lemma_header_layout(h: PacketHeader, b: Seq<u8>)
    requires
        b.len() >= 6,
        b.take(6) == header_bytes(h),
    ensures
        starts_with_header(b, h),
{
    lemma_be32_spells(h.sequence_id);
    assert(b[0] == b.take(6)[0]);
    assert(b[1] == b.take(6)[1]);
    assert(b[2] == b.take(6)[2]);
    assert(b[3] == b.take(6)[3]);
    assert(b[4] == b.take(6)[4]);
    assert(b[5] == b.take(6)[5]);
}

/// A `UseCircuitCode` whose IDs parse is sent as the header, the Low
/// message number 3, the circuit code least significant byte first, the
/// session ID's bytes and the agent ID's bytes: 46 bytes.
pub proof fn lemma_use_circuit_code_layout(
    h: PacketHeader,
    agent_id: Seq<char>,
    session_id: Seq<char>,
    circuit_code: u32,
    agent: Seq<u8>,
    session: Seq<u8>,
)
    requires
        uuid_parse(agent_id) == Some(agent),
        uuid_parse(session_id) == Some(session),
        agent.len() == 16,
        session.len() == 16,
    ensures
        encode_spec(h, HandshakeView::UseCircuitCode { agent_id, session_id, circuit_code }) matches Ok(b)
            && b.len() == 46 && starts_with_header(b, h) && b[6] == 0xFF && b[7] == 0xFF && b[8] == 0
            && b[9] == 3 && le_number(b[10], b[11], b[12], b[13]) == circuit_code && b.subrange(14, 30)
            == session && b.subrange(30, 46) == agent,
{
    let b = header_bytes(h) + seq![0xFFu8, 0xFFu8, 0x00u8, 0x03u8] + le32(circuit_code) + session
        + agent;
    assert(b.take(6) =~= header_bytes(h));
    lemma_header_layout(h, b);
    lemma_le32_spells(circuit_code);
    assert(b.subrange(14, 30) =~= session);
    assert(b.subrange(30, 46) =~= agent);
    assert(b[10] == le32(circuit_code)[0]);
    assert(b[11] == le32(circuit_code)[1]);
    assert(b[12] == le32(circuit_code)[2]);
    assert(b[13] == le32(circuit_code)[3]);
}

/// A `CompleteAgentMovement` whose IDs parse is sent as the header, the Low
/// message number 249, the agent ID's bytes, the session ID's bytes and the
/// circuit code least significant byte first.
pub proof fn lemma_complete_agent_movement_layout(
    h: PacketHeader,
    agent_id: Seq<char>,
    session_id: Seq<char>,
    circuit_code: u32,
    position: Vec3Bits,
    look_at: Vec3Bits,
    agent: Seq<u8>,
    session: Seq<u8>,
)
    requires
        uuid_parse(agent_id) == Some(agent),
        uuid_parse(session_id) == Some(session),
        agent.len() == 16,
        session.len() == 16,
    ensures
        encode_spec(
            h,
            HandshakeView::CompleteAgentMovement { agent_id, session_id, circuit_code, position, look_at },
        ) matches Ok(b) && b.len() == 46 && starts_with_header(b, h) && b[6] == 0xFF && b[7] == 0xFF
            && b[8] == 0 && b[9] == 0xF9 && b.subrange(10, 26) == agent && b.subrange(26, 42) == session
            && le_number(b[42], b[43], b[44], b[45]) == circuit_code,
{
    let b = header_bytes(h) + seq![0xFFu8, 0xFFu8, 0x00u8, 0xF9u8] + agent + session + le32(
        circuit_code,
    );
    assert(b.take(6) =~= header_bytes(h));
    lemma_header_layout(h, b);
    lemma_le32_spells(circuit_code);
    assert(b.subrange(10, 26) =~= agent);
    assert(b.subrange(26, 42) =~= session);
    assert(b[42] == le32(circuit_code)[0]);
    assert(b[43] == le32(circuit_code)[1]);
    assert(b[44] == le32(circuit_code)[2]);
    assert(b[45] == le32(circuit_code)[3]);
}

/// A `RegionHandshakeReply` whose IDs parse is sent as the header, the Low
/// message number 149, the agent ID's bytes, the session ID's bytes and the
/// flags least significant byte first.
pub proof fn lemma_region_handshake_reply_layout(
    h: PacketHeader,
    agent_id: Seq<char>,
    session_id: Seq<char>,
    flags: u32,
    agent: Seq<u8>,
    session: Seq<u8>,
)
    requires
        uuid_parse(agent_id) == Some(agent),
        uuid_parse(session_id) == Some(session),
        agent.len() == 16,
        session.len() == 16,
    ensures
        encode_spec(h, HandshakeView::RegionHandshakeReply { agent_id, session_id, flags }) matches Ok(b)
            && b.len() == 46 && starts_with_header(b, h) && b[6] == 0xFF && b[7] == 0xFF && b[8] == 0
            && b[9] == 0x95 && b.subrange(10, 26) == agent && b.subrange(26, 42) == session && le_number(
            b[42],
            b[43],
            b[44],
            b[45],
        ) == flags,
{
    let b = header_bytes(h) + seq![0xFFu8, 0xFFu8, 0x00u8, 0x95u8] + agent + session + le32(flags);
    assert(b.take(6) =~= header_bytes(h));
    lemma_header_layout(h, b);
    lemma_le32_spells(flags);
    assert(b.subrange(10, 26) =~= agent);
    assert(b.subrange(26, 42) =~= session);
    assert(b[42] == le32(flags)[0]);
    assert(b[43] == le32(flags)[1]);
    assert(b[44] == le32(flags)[2]);
    assert(b[45] == le32(flags)[3]);
}

/// An `Ack` is sent as the header, the Fixed message number `0xFFFFFFFB`, a
/// count of one and the acknowledged sequence number most significant byte
/// first.
pub proof fn lemma_ack_layout(h: PacketHeader, sequence_id: u32)
    ensures
        encode_spec(h, HandshakeView::Ack { sequence_id }) matches Ok(b) && b.len() == 15
            && starts_with_header(b, h) && b[6] == 0xFF && b[7] == 0xFF && b[8] == 0xFF && b[9] == 0xFB
            && b[10] == 1 && be_number(b[11], b[12], b[13], b[14]) == sequence_id,
{
    let b = header_bytes(h) + seq![0xFFu8, 0xFFu8, 0xFFu8, 0xFBu8, 1u8] + be32(sequence_id);
    assert(b.take(6) =~= header_bytes(h));
    lemma_header_layout(h, b);
    lemma_be32_spells(sequence_id);
    assert(b[11] == be32(sequence_id)[0]);
    assert(b[12] == be32(sequence_id)[1]);
    assert(b[13] == be32(sequence_id)[2]);
    assert(b[14] == be32(sequence_id)[3]);
}

/// The header that a packet's first five bytes give: the flags, then the
/// sequence number most significant byte first.
pub open spec fn header_of(d: Seq<u8>) -> PacketHeader {
    PacketHeader { sequence_id: be_number(d[1], d[2], d[3], d[4]) as u32, flags: d[0] }
}

/// A Low message number 150 (`UseCircuitCodeReply`) of at least 11 bytes
/// decodes as a success exactly when its body byte, at offset 10, is not
/// zero.
pub proof fn lemma_use_circuit_code_reply_decodes(d: Seq<u8>)
    requires
        d.len() >= 11,
        d[6] == 0xFF,
        d[7] == 0xFF,
        d[8] == 0x00,
        d[9] == 0x96,
    ensures
        decode_spec(d) == Ok::<(PacketHeader, HandshakeView), CodecErrorView>(
            (header_of(d), HandshakeView::UseCircuitCodeReply(d[10] != 0)),
        ),
{
    lemma_u32_be_number(d[1], d[2], d[3], d[4]);
    assert(u16_be(0u8, 0x96u8) == 150u16) by (bit_vector);
}

/// A Fixed `PacketAck` (message number `0xFFFFFFFB`) of at least 15 bytes
/// decodes as the acknowledgement of the sequence number at offset 11, most
/// significant byte first.
pub proof fn lemma_packet_ack_decodes(d: Seq<u8>)
    requires
        d.len() >= 15,
        d[6] == 0xFF,
        d[7] == 0xFF,
        d[8] == 0xFF,
        d[9] == 0xFB,
    ensures
        decode_spec(d) == Ok::<(PacketHeader, HandshakeView), CodecErrorView>(
            (
                header_of(d),
                HandshakeView::Ack { sequence_id: be_number(d[11], d[12], d[13], d[14]) as u32 },
            ),
        ),
{
    lemma_u32_be_number(d[1], d[2], d[3], d[4]);
    lemma_u32_be_number(d[6], d[7], d[8], d[9]);
    lemma_u32_be_number(d[11], d[12], d[13], d[14]);
}

/// A Low message number 3 (`UseCircuitCode`) of at least 46 bytes decodes
/// with the circuit code at offset 10, least significant byte first, the
/// session ID from the 16 bytes at offset 14 and the agent ID from those at
/// offset 30.
pub proof fn lemma_use_circuit_code_decodes(d: Seq<u8>)
    requires
        d.len() >= 46,
        d[6] == 0xFF,
        d[7] == 0xFF,
        d[8] == 0x00,
        d[9] == 0x03,
    ensures
        decode_spec(d) == Ok::<(PacketHeader, HandshakeView), CodecErrorView>(
            (
                header_of(d),
                HandshakeView::UseCircuitCode {
                    agent_id: uuid_hyphenated(d.subrange(30, 46)),
                    session_id: uuid_hyphenated(d.subrange(14, 30)),
                    circuit_code: le_number(d[10], d[11], d[12], d[13]) as u32,
                },
            ),
        ),
{
    lemma_u32_be_number(d[1], d[2], d[3], d[4]);
    lemma_u32_be_number(d[10], d[11], d[12], d[13]);
    assert(u16_be(0u8, 0x03u8) == 3u16) by (bit_vector);
}

/// Each value of a list, sent most significant byte first, takes the four
/// bytes at four times its position.
pub proof fn lemma_be32_all_layout(xs: Seq<u32>)
    ensures
        be32_all(xs).len() == 4 * xs.len(),
        forall|i: int|
            0 <= i < xs.len() ==> be_number(
                be32_all(xs)[4 * i],
                be32_all(xs)[4 * i + 1],
                be32_all(xs)[4 * i + 2],
                be32_all(xs)[4 * i + 3],
            ) == #[trigger] xs[i],
    decreases xs.len(),
{
    if xs.len() > 0 {
        let t = xs.drop_first();
        lemma_be32_all_layout(t);
        lemma_be32_spells(xs[0]);
        let all = be32_all(xs);
        assert(all == be32(xs[0]) + be32_all(t));
        assert forall|i: int|
            0 <= i < xs.len() implies be_number(all[4 * i], all[4 * i + 1], all[4 * i + 2], all[4 * i + 3])
            == #[trigger] xs[i] by {
            if i > 0 {
                assert(xs[i] == t[i - 1]);
                assert(4 * i - 4 == 4 * (i - 1));
                assert(all[4 * i] == be32_all(t)[4 * (i - 1)]);
                assert(all[4 * i + 1] == be32_all(t)[4 * (i - 1) + 1]);
                assert(all[4 * i + 2] == be32_all(t)[4 * (i - 1) + 2]);
                assert(all[4 * i + 3] == be32_all(t)[4 * (i - 1) + 3]);
            }
        }
    }
}

/// An `AgentThrottle` whose IDs parse is sent as the header, the Low message
/// number 81, the agent ID's bytes, the session ID's bytes, the circuit code
/// and then each throttle value, each most significant byte first.
pub proof fn lemma_agent_throttle_layout(
    h: PacketHeader,
    agent_id: Seq<char>,
    session_id: Seq<char>,
    circuit_code: u32,
    throttle: Seq<u32>,
    agent: Seq<u8>,
    session: Seq<u8>,
)
    requires
        uuid_parse(agent_id) == Some(agent),
        uuid_parse(session_id) == Some(session),
        agent.len() == 16,
        session.len() == 16,
    ensures
        encode_spec(h, HandshakeView::AgentThrottle { agent_id, session_id, circuit_code, throttle }) matches Ok(
            b,
        ) && b.len() == 46 + 4 * throttle.len() && starts_with_header(b, h) && b[6] == 0xFF && b[7]
            == 0xFF && b[8] == 0 && b[9] == 0x51 && b.subrange(10, 26) == agent && b.subrange(26, 42)
            == session && be_number(b[42], b[43], b[44], b[45]) == circuit_code && forall|i: int|
            0 <= i < throttle.len() ==> be_number(
                b[46 + 4 * i],
                b[47 + 4 * i],
                b[48 + 4 * i],
                b[49 + 4 * i],
            ) == #[trigger] throttle[i],
{
    let tail = be32_all(throttle);
    let b = header_bytes(h) + seq![0xFFu8, 0xFFu8, 0x00u8, 0x51u8] + agent + session + be32(circuit_code)
        + tail;
    assert(b.take(6) =~= header_bytes(h));
    lemma_header_layout(h, b);
    lemma_be32_spells(circuit_code);
    lemma_be32_all_layout(throttle);
    assert(b.subrange(10, 26) =~= agent);
    assert(b.subrange(26, 42) =~= session);
    assert(b[42] == be32(circuit_code)[0]);
    assert(b[43] == be32(circuit_code)[1]);
    assert(b[44] == be32(circuit_code)[2]);
    assert(b[45] == be32(circuit_code)[3]);
    assert forall|i: int| 0 <= i < throttle.len() implies be_number(
        b[46 + 4 * i],
        b[47 + 4 * i],
        b[48 + 4 * i],
        b[49 + 4 * i],
    ) == #[trigger] throttle[i] by {
        assert(b[46 + 4 * i] == tail[4 * i]);
        assert(b[47 + 4 * i] == tail[4 * i + 1]);
        assert(b[48 + 4 * i] == tail[4 * i + 2]);
        assert(b[49 + 4 * i] == tail[4 * i + 3]);
    }
}

/// A Low message number 249 or 250 (`AgentMovementComplete`) of at least 42
/// bytes decodes with the agent ID from the 16 bytes at offset 10 and the
/// session ID from those at offset 26.
pub proof fn lemma_agent_movement_complete_decodes(d: Seq<u8>)
    requires
        d.len() >= 42,
        d[6] == 0xFF,
        d[7] == 0xFF,
        d[8] == 0x00,
        d[9] == 0xF9 || d[9] == 0xFA,
    ensures
        decode_spec(d) == Ok::<(PacketHeader, HandshakeView), CodecErrorView>(
            (
                header_of(d),
                HandshakeView::AgentMovementComplete {
                    agent_id: uuid_hyphenated(d.subrange(10, 26)),
                    session_id: uuid_hyphenated(d.subrange(26, 42)),
                },
            ),
        ),
{
    lemma_u32_be_number(d[1], d[2], d[3], d[4]);
    assert(u16_be(0u8, 0xF9u8) == 249u16) by (bit_vector);
    assert(u16_be(0u8, 0xFAu8) == 250u16) by (bit_vector);
}

/// A Low message number 387 (`AgentDataUpdate`) of at least 26 bytes
/// decodes with the agent ID from the 16 bytes at offset 10.
pub proof fn lemma_agent_data_update_decodes(d: Seq<u8>)
    requires
        d.len() >= 26,
        d[6] == 0xFF,
        d[7] == 0xFF,
        d[8] == 0x01,
        d[9] == 0x83,
    ensures
        decode_spec(d) == Ok::<(PacketHeader, HandshakeView), CodecErrorView>(
            (header_of(d), HandshakeView::AgentDataUpdate { agent_id: uuid_hyphenated(d.subrange(10, 26)) }),
        ),
{
    lemma_u32_be_number(d[1], d[2], d[3], d[4]);
    assert(u16_be(0x01u8, 0x83u8) == 387u16) by (bit_vector);
}

/// A Medium message number 6 (the acknowledgement list) of at least 12
/// bytes decodes as the acknowledgement of the sequence number at offset 8,
/// most significant byte first.
pub proof fn lemma_medium_ack_decodes(d: Seq<u8>)
    requires
        d.len() >= 12,
        d[6] == 0xFF,
        d[7] == 0x06,
    ensures
        decode_spec(d) == Ok::<(PacketHeader, HandshakeView), CodecErrorView>(
            (header_of(d), HandshakeView::Ack { sequence_id: be_number(d[8], d[9], d[10], d[11]) as u32 }),
        ),
{
    lemma_u32_be_number(d[1], d[2], d[3], d[4]);
    lemma_u32_be_number(d[8], d[9], d[10], d[11]);
}

} // verus!
