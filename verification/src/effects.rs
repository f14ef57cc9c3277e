//! Viewer effects (pointing, beams, spheres): their kinds, colours and the
//! bytes of their type-specific data. Positions are carried as the IEEE-754
//! bit patterns of their `f32` coordinates.

use vstd::prelude::*;
use crate::bytes_util::{ids_equal, le32, push_le32, push_slice};
use crate::packet_types::LLVariable1;
use crate::uuid_text::uuid_new_v4;

verus! {

/// Kinds of viewer effects.
#[derive(Debug, Clone, Copy, PartialEq, Eq)]
pub enum EffectType {
    Text,
    Icon,
    Connector,
    Flexible,
    Beam,
    Glow,
    PointAt,
    LookAt,
    EditBeam,
    Sphere,
}

/// The wire code of an effect type.
pub open spec fn effect_type_code(t: EffectType) -> u8 {
    match t {
        EffectType::Text => 0,
        EffectType::Icon => 1,
        EffectType::Connector => 2,
        EffectType::Flexible => 3,
        EffectType::Beam => 4,
        EffectType::Glow => 5,
        EffectType::PointAt => 9,
        EffectType::LookAt => 10,
        EffectType::EditBeam => 11,
        EffectType::Sphere => 13,
    }
}

impl From<EffectType> for u8 {
    fn from(effect_type: EffectType) -> (v: u8) {
        match effect_type {
            EffectType::Text => 0,
            EffectType::Icon => 1,
            EffectType::Connector => 2,
            EffectType::Flexible => 3,
            EffectType::Beam => 4,
            EffectType::Glow => 5,
            EffectType::PointAt => 9,
            EffectType::LookAt => 10,
            EffectType::EditBeam => 11,
            EffectType::Sphere => 13,
        }
    }
}

impl vstd::std_specs::convert::FromSpecImpl<EffectType> for u8 {
    open spec fn obeys_from_spec() -> bool {
        true
    }

    open spec fn from_spec(v: EffectType) -> u8 {
        effect_type_code(v)
    }
}

/// Distinct effect types have distinct codes.
pub proof fn lemma_effect_type_code_injective(a: EffectType, b: EffectType)
    ensures
        effect_type_code(a) == effect_type_code(b) ==> a == b,
{
}

/// An RGBA colour.
#[derive(Debug, Clone, Copy, PartialEq, Eq)]
pub struct EffectColor {
    pub r: u8,
    pub g: u8,
    pub b: u8,
    pub a: u8,
}

impl EffectColor {
    /// The colour with the given channels.
    pub fn new(r: u8, g: u8, b: u8, a: u8) -> (c: Self)
        ensures
            c == (EffectColor { r, g, b, a }),
    {
        EffectColor { r, g, b, a }
    }

    /// Opaque white.
    pub fn white() -> (c: Self)
        ensures
            c == (EffectColor { r: 255, g: 255, b: 255, a: 255 }),
    {
        Self::new(255, 255, 255, 255)
    }

    /// Opaque red.
    pub fn red() -> (c: Self)
        ensures
            c == (EffectColor { r: 255, g: 0, b: 0, a: 255 }),
    {
        Self::new(255, 0, 0, 255)
    }

    /// The channels in the order red, green, blue, alpha.
    pub fn to_bytes(&self) -> (v: Vec<u8>)
        ensures
            v@ == seq![self.r, self.g, self.b, self.a],
    {
        let mut v: Vec<u8> = Vec::new();
        v.push(self.r);
        v.push(self.g);
        v.push(self.b);
        v.push(self.a);
        v
    }
}

/// A position, by the bit patterns of its `f32` coordinates.
#[derive(Debug, Clone, Copy, PartialEq, Eq)]
pub struct Position {
    pub x: u32,
    pub y: u32,
    pub z: u32,
}

impl Position {
    /// The position with the given coordinate bit patterns.
    pub fn new(x: u32, y: u32, z: u32) -> (p: Self)
        ensures
            p == (Position { x, y, z }),
    {
        Position { x, y, z }
    }

    /// The origin (all coordinates `0.0`, whose bit pattern is zero).
    pub fn origin() -> (p: Self)
        ensures
            p == (Position { x: 0, y: 0, z: 0 }),
    {
        Self::new(0, 0, 0)
    }
}

/// Type-specific data of an effect.
#[derive(Debug, Clone)]
pub enum EffectTypeData {
    PointAt { source_pos: Position, target_pos: Position, target_id: Option<[u8; 16]> },
    Beam { source_pos: Position, target_pos: Position },
    /// `radius` is the bit pattern of an `f32`.
    Sphere { center: Position, radius: u32 },
    Raw(Vec<u8>),
}

/// Little-endian bytes of a position's three coordinates.
pub open spec fn position_bytes(p: Position) -> Seq<u8> {
    le32(p.x) + le32(p.y) + le32(p.z)
}

/// The wire form of effect data: for pointing, 32 zero bytes, the source,
/// four zero bytes, the target and one zero byte; for a beam, source and
/// target; for a sphere, centre and radius; raw data as it is.
pub open spec fn effect_data_bytes(d: EffectTypeData) -> Seq<u8> {
    match d {
        EffectTypeData::PointAt { source_pos, target_pos, .. } => Seq::new(32, |i: int| 0u8)
            + position_bytes(source_pos) + seq![0u8, 0u8, 0u8, 0u8] + position_bytes(target_pos)
            + seq![0u8],
        EffectTypeData::Beam { source_pos, target_pos } => position_bytes(source_pos)
            + position_bytes(target_pos),
        EffectTypeData::Sphere { center, radius } => position_bytes(center) + le32(radius),
        EffectTypeData::Raw(bytes) => bytes@,
    }
}

fn push_position(out: &mut Vec<u8>, p: &Position)
    ensures
        final(out)@ == old(out)@ + position_bytes(*p),
{
    push_le32(out, p.x);
    push_le32(out, p.y);
    push_le32(out, p.z);
    assert(out@ =~= old(out)@ + position_bytes(*p));
}

fn push_zeros(out: &mut Vec<u8>, n: usize)
    ensures
        final(out)@ == old(out)@ + Seq::new(n as nat, |i: int| 0u8),
{
    let ghost start = out@;
    let mut i: usize = 0;
    while i < n
        invariant
            i <= n,
            out@ == start + Seq::new(i as nat, |k: int| 0u8),
        decreases n - i,
    {
        out.push(0u8);
        i = i + 1;
        assert(out@ =~= start + Seq::new(i as nat, |k: int| 0u8));
    }
}

impl EffectTypeData {
    /// The wire form of the data.
    pub fn to_bytes(&self) -> (v: Vec<u8>)
        ensures
            v@ == effect_data_bytes(*self),
    {
        match self {
            EffectTypeData::PointAt { source_pos, target_pos, .. } => {
                let mut data: Vec<u8> = Vec::new();
                push_zeros(&mut data, 32);
                push_position(&mut data, source_pos);
                push_zeros(&mut data, 4);
                push_position(&mut data, target_pos);
                push_zeros(&mut data, 1);
                assert(Seq::new(4 as nat, |i: int| 0u8) =~= seq![0u8, 0u8, 0u8, 0u8]);
                assert(Seq::new(1 as nat, |i: int| 0u8) =~= seq![0u8]);
                assert(data@ =~= effect_data_bytes(*self));
                data
            },
            EffectTypeData::Beam { source_pos, target_pos } => {
                let mut data: Vec<u8> = Vec::new();
                push_position(&mut data, source_pos);
                push_position(&mut data, target_pos);
                assert(data@ =~= effect_data_bytes(*self));
                data
            },
            EffectTypeData::Sphere { center, radius } => {
                let mut data: Vec<u8> = Vec::new();
                push_position(&mut data, center);
                push_le32(&mut data, *radius);
                assert(data@ =~= effect_data_bytes(*self));
                data
            },
            EffectTypeData::Raw(bytes) => {
                let mut data: Vec<u8> = Vec::new();
                push_slice(&mut data, bytes.as_slice());
                assert(data@ =~= bytes@);
                data
            },
        }
    }
}

/// The length of the wire form of each kind of effect data.
pub proof fn lemma_effect_data_lengths(d: EffectTypeData)
    ensures
        d is PointAt ==> effect_data_bytes(d).len() == 61,
        d is Beam ==> effect_data_bytes(d).len() == 24,
        d is Sphere ==> effect_data_bytes(d).len() == 16,
{
}

/// The settings of one effect.
#[derive(Debug, Clone)]
pub struct EffectConfig {
    pub effect_type: EffectType,
    /// Bit pattern of the `f32` duration in seconds.
    pub duration: u32,
    pub color: EffectColor,
    pub type_data: EffectTypeData,
    pub agent_id: [u8; 16],
}

/// Bit pattern of the `f32` value `0.5`.
pub const HALF_SECOND_BITS: u32 = 0x3F00_0000;

/// Bit pattern of the `f32` value `1.0`.
pub const ONE_SECOND_BITS: u32 = 0x3F80_0000;

impl EffectConfig {
    /// A white pointing effect of half a second from `source_pos` at `target_pos`.
    pub fn point_at(agent_id: [u8; 16], source_pos: Position, target_pos: Position) -> (c: Self)
        ensures
            c.effect_type == EffectType::PointAt,
            c.duration == HALF_SECOND_BITS,
            c.color == EffectColor::white_spec(),
            c.type_data matches EffectTypeData::PointAt { source_pos: s, target_pos: t, target_id: None }
                && s == source_pos && t == target_pos,
            c.agent_id == agent_id,
    {
        EffectConfig {
            effect_type: EffectType::PointAt,
            duration: HALF_SECOND_BITS,
            color: EffectColor::white(),
            type_data: EffectTypeData::PointAt { source_pos, target_pos, target_id: None },
            agent_id,
        }
    }

    /// A red beam of one second from `source_pos` to `target_pos`.
    pub fn beam(agent_id: [u8; 16], source_pos: Position, target_pos: Position) -> (c: Self)
        ensures
            c.effect_type == EffectType::Beam,
            c.duration == ONE_SECOND_BITS,
            c.color == (EffectColor { r: 255, g: 0, b: 0, a: 255 }),
            c.type_data matches EffectTypeData::Beam { source_pos: s, target_pos: t } && s
                == source_pos && t == target_pos,
            c.agent_id == agent_id,
    {
        EffectConfig {
            effect_type: EffectType::Beam,
            duration: ONE_SECOND_BITS,
            color: EffectColor::red(),
            type_data: EffectTypeData::Beam { source_pos, target_pos },
            agent_id,
        }
    }
}

/// One effect of a `ViewerEffect` message.
#[derive(Debug)]
pub struct EffectBlock {
    pub id: [u8; 16],
    pub agent_id: [u8; 16],
    /// The effect type's code.
    pub effect_type: u8,
    /// Bit pattern of the `f32` duration in seconds.
    pub duration: u32,
    /// Red, green, blue and alpha.
    pub color: Vec<u8>,
    pub type_data: LLVariable1,
}

/// The `ViewerEffect` message: effects an agent shows.
#[derive(Debug)]
pub struct ViewerEffect {
    pub agent_id: [u8; 16],
    pub session_id: [u8; 16],
    pub effect: Vec<EffectBlock>,
}

/// The ids of entries, in order.
pub open spec fn effect_ids(es: Seq<([u8; 16], EffectConfig)>) -> Seq<[u8; 16]> {
    es.map_values(|e: ([u8; 16], EffectConfig)| e.0)
}

/// Whether `b` carries the version and variant bits of a random UUID.
pub open spec fn random_uuid(b: [u8; 16]) -> bool {
    b@[6] >> 4u8 == 4 && b@[8] >> 6u8 == 2
}

/// The block a message carries for effect `id` with settings `c`.
pub open spec fn block_for(blk: EffectBlock, id: [u8; 16], c: EffectConfig) -> bool {
    &&& blk.id == id
    &&& blk.agent_id == c.agent_id
    &&& blk.effect_type == effect_type_code(c.effect_type)
    &&& blk.duration == c.duration
    &&& blk.color@ == seq![c.color.r, c.color.g, c.color.b, c.color.a]
    &&& blk.type_data.data@ == effect_data_bytes(c.type_data)
}

/// Makes `ViewerEffect` messages and keeps the effects it made.
#[derive(Debug)]
pub struct EffectManager {
    active_effects: Vec<([u8; 16], EffectConfig)>,
    next_effect_id: u32,
}

impl EffectManager {
    /// The effects made and not yet cleaned up, by id.
    pub closed spec fn effects(&self) -> Seq<([u8; 16], EffectConfig)> {
        self.active_effects@
    }

    /// How many ids were handed out.
    pub closed spec fn issued(&self) -> u32 {
        self.next_effect_id
    }

    /// No effect id occurs twice.
    pub closed spec fn wf(&self) -> bool {
        forall|i: int, j: int|
            0 <= i < j < self.active_effects@.len() ==> self.active_effects@[i].0 != self.active_effects@[j].0
    }

    /// No effects yet.
    pub fn new() -> (m: Self)
        ensures
            m.wf(),
            m.effects() == Seq::<([u8; 16], EffectConfig)>::empty(),
            m.issued() == 1,
    {
        EffectManager { active_effects: Vec::new(), next_effect_id: 1 }
    }

    /// A fresh random effect id.
    fn generate_effect_id(&mut self) -> (id: [u8; 16])
        requires
            old(self).issued() < u32::MAX,
        ensures
            random_uuid(id),
            final(self).issued() == old(self).issued() + 1,
            final(self).effects() == old(self).effects(),
    {
        let id = uuid_new_v4();
        self.next_effect_id = self.next_effect_id + 1;
        id
    }

    /// The `ViewerEffect` message for one effect with settings `config`,
    /// under a fresh random id; the effect is kept under that id.
    pub fn create_viewer_effect(&mut self, session_id: [u8; 16], config: EffectConfig) -> (m: ViewerEffect)
        requires
            old(self).wf(),
            old(self).issued() < u32::MAX,
            effect_data_bytes(config.type_data).len() <= 255,
        ensures
            final(self).wf(),
            m.agent_id == config.agent_id,
            m.session_id == session_id,
            m.effect@.len() == 1,
            random_uuid(m.effect@[0].id),
            block_for(m.effect@[0], m.effect@[0].id, config),
            final(self).effects().last() == (m.effect@[0].id, config),
            forall|k: [u8; 16]|
                #![trigger effect_ids(final(self).effects()).contains(k)]
                effect_ids(final(self).effects()).contains(k) <==> (effect_ids(old(self).effects()).contains(k)
                    || k == m.effect@[0].id),
            final(self).issued() == old(self).issued() + 1,
    {
        let effect_id = self.generate_effect_id();
        let type_data_bytes = config.type_data.to_bytes();
        let block = EffectBlock {
            id: effect_id,
            agent_id: config.agent_id,
            effect_type: u8::from(config.effect_type),
            duration: config.duration,
            color: config.color.to_bytes(),
            type_data: LLVariable1::new(type_data_bytes),
        };
        let agent_id = config.agent_id;
        self.remember(effect_id, config);
        let mut effect: Vec<EffectBlock> = Vec::new();
        effect.push(block);
        ViewerEffect { agent_id, session_id, effect }
    }

    /// Keeps `config` under `id`, replacing what was kept under it.
    fn remember(&mut self, id: [u8; 16], config: EffectConfig)
        requires
            old(self).wf(),
        ensures
            final(self).wf(),
            final(self).effects().last() == (id, config),
            forall|k: [u8; 16]|
                #![trigger effect_ids(final(self).effects()).contains(k)]
                effect_ids(final(self).effects()).contains(k) <==> (effect_ids(old(self).effects()).contains(k)
                    || k == id),
            final(self).issued() == old(self).issued(),
    {
        let ghost before = self.active_effects@;
        let mut i: usize = 0;
        let mut found: Option<usize> = None;
        while i < self.active_effects.len()
            invariant
                i <= self.active_effects.len(),
                self.active_effects@ == before,
                found is None ==> forall|k: int| 0 <= k < i ==> before[k].0 != id,
                found matches Some(f) ==> f < before.len() && before[f as int].0 == id,
            decreases self.active_effects.len() - i,
        {
            if found.is_none() && ids_equal(&self.active_effects[i].0, &id) {
                found = Some(i);
            }
            i = i + 1;
        }
        if let Some(f) = found {
            let _replaced = self.active_effects.remove(f);
        }
        let ghost mid = self.active_effects@;
        self.active_effects.push((id, config));
        proof {
            let fin = self.active_effects@;
            assert(fin.last() == (id, config));
            assert forall|k: [u8; 16]| #[trigger] effect_ids(fin).contains(k) <==> (effect_ids(before).contains(k) || k == id) by {
                if effect_ids(fin).contains(k) {
                    let a = choose|a: int| 0 <= a < effect_ids(fin).len() && effect_ids(fin)[a] == k;
                    if a < mid.len() {
                        let aa = if found is Some && a >= found->0 { a + 1 } else { a };
                        assert(mid[a] == before[aa]);
                        assert(effect_ids(before)[aa] == k);
                    } else {
                        assert(fin[a] == (id, config));
                    }
                }
                if effect_ids(before).contains(k) && k != id {
                    let a = choose|a: int| 0 <= a < effect_ids(before).len() && effect_ids(before)[a] == k;
                    if found is Some {
                        assert(a != found->0);
                        let ma = if a < found->0 { a } else { a - 1 };
                        assert(mid[ma] == before[a]);
                        assert(effect_ids(fin)[ma] == k);
                    } else {
                        assert(effect_ids(fin)[a] == k);
                    }
                }
                if k == id {
                    assert(effect_ids(fin)[fin.len() - 1] == k);
                }
            }
            assert forall|a: int, b: int| 0 <= a < b < fin.len() implies fin[a].0 != fin[b].0 by {
                if b == fin.len() - 1 {
                    let aa = if found is Some && a >= found->0 { a + 1 } else { a };
                    assert(mid[a] == before[aa]);
                } else {
                    let aa = if found is Some && a >= found->0 { a + 1 } else { a };
                    let bb = if found is Some && b >= found->0 { b + 1 } else { b };
                    assert(mid[a] == before[aa]);
                    assert(mid[b] == before[bb]);
                }
            }
        }
    }

    /// A pointing effect (type 9) of `agent_id` from `source_pos` at `target_pos`.
    pub fn create_point_at_effect(
        &mut self,
        agent_id: [u8; 16],
        session_id: [u8; 16],
        source_pos: Position,
        target_pos: Position,
    ) -> (m: ViewerEffect)
        requires
            old(self).wf(),
            old(self).issued() < u32::MAX,
        ensures
            final(self).wf(),
            m.agent_id == agent_id,
            m.session_id == session_id,
            m.effect@.len() == 1,
            random_uuid(m.effect@[0].id),
            m.effect@[0].agent_id == agent_id,
            m.effect@[0].effect_type == 9,
            m.effect@[0].duration == HALF_SECOND_BITS,
            m.effect@[0].color@ == seq![255u8, 255u8, 255u8, 255u8],
            m.effect@[0].type_data.data@ == effect_data_bytes(
                EffectTypeData::PointAt { source_pos, target_pos, target_id: None },
            ),
            effect_ids(final(self).effects()).contains(m.effect@[0].id),
            final(self).issued() == old(self).issued() + 1,
    {
        let config = EffectConfig::point_at(agent_id, source_pos, target_pos);
        proof {
            lemma_effect_data_lengths(config.type_data);
        }
        let m = self.create_viewer_effect(session_id, config);
        assert(effect_ids(self.effects()).contains(m.effect@[0].id));
        m
    }

    /// A beam effect (type 4) of `agent_id` from `source_pos` to `target_pos`.
    pub fn create_beam_effect(
        &mut self,
        agent_id: [u8; 16],
        session_id: [u8; 16],
        source_pos: Position,
        target_pos: Position,
    ) -> (m: ViewerEffect)
        requires
            old(self).wf(),
            old(self).issued() < u32::MAX,
        ensures
            final(self).wf(),
            m.agent_id == agent_id,
            m.session_id == session_id,
            m.effect@.len() == 1,
            random_uuid(m.effect@[0].id),
            m.effect@[0].agent_id == agent_id,
            m.effect@[0].effect_type == 4,
            m.effect@[0].duration == ONE_SECOND_BITS,
            m.effect@[0].color@ == seq![255u8, 0u8, 0u8, 255u8],
            m.effect@[0].type_data.data@ == effect_data_bytes(EffectTypeData::Beam { source_pos, target_pos }),
            effect_ids(final(self).effects()).contains(m.effect@[0].id),
            final(self).issued() == old(self).issued() + 1,
    {
        let config = EffectConfig::beam(agent_id, source_pos, target_pos);
        proof {
            lemma_effect_data_lengths(config.type_data);
        }
        let m = self.create_viewer_effect(session_id, config);
        assert(effect_ids(self.effects()).contains(m.effect@[0].id));
        m
    }

    /// How many effects are kept.
    pub fn active_effect_count(&self) -> (n: usize)
        ensures
            n == self.effects().len(),
    {
        self.active_effects.len()
    }

    /// Forgets all kept effects.
    pub fn cleanup_expired_effects(&mut self)
        ensures
            final(self).wf(),
            final(self).effects() == Seq::<([u8; 16], EffectConfig)>::empty(),
            final(self).issued() == old(self).issued(),
    {
        self.active_effects.clear();
    }
}

impl Default for EffectManager {
    fn default() -> (m: Self)
        ensures
            m.wf(),
            m.effects() == Seq::<([u8; 16], EffectConfig)>::empty(),
            m.issued() == 1,
    {
        EffectManager::new()
    }
}

impl EffectColor {
    /// Opaque white.
    pub open spec fn white_spec() -> EffectColor {
        EffectColor { r: 255, g: 255, b: 255, a: 255 }
    }
}

} // verus!
