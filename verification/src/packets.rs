//! Packet kinds: their frequency classes, the key under which a kind is
//! registered (frequency and message number), and the registry of kinds.

use vstd::prelude::*;
use std::collections::HashMap;

verus! {

broadcast use vstd::std_specs::hash::group_hash_axioms;

/// Frequency classes of messages; each has its own range of message numbers.
#[derive(Debug, Clone, Copy, PartialEq, Eq)]
pub enum PacketFrequency {
    High,
    Medium,
    Low,
    Fixed,
}

/// The class number of a frequency (0 for `High` to 3 for `Fixed`).
pub open spec fn frequency_index(f: PacketFrequency) -> u32 {
    match f {
        PacketFrequency::High => 0,
        PacketFrequency::Medium => 1,
        PacketFrequency::Low => 2,
        PacketFrequency::Fixed => 3,
    }
}

/// The registry key of a message: its class number in the upper 16 bits and
/// its number in the lower 16.
pub open spec fn lookup_key_spec(f: PacketFrequency, id: u16) -> u32 {
    (frequency_index(f) * 65536 + id) as u32
}

/// The registry key of message `id` of frequency class `f`.
pub fn lookup_key(f: PacketFrequency, id: u16) -> (k: u32)
    ensures
        k == lookup_key_spec(f, id),
{
    let class: u32 = match f {
        PacketFrequency::High => 0,
        PacketFrequency::Medium => 1,
        PacketFrequency::Low => 2,
        PacketFrequency::Fixed => 3,
    };
    class * 65536 + (id as u32)
}

/// Distinct messages have distinct keys, and a key gives back its class
/// and number.
pub proof fn lemma_lookup_key_injective(f1: PacketFrequency, id1: u16, f2: PacketFrequency, id2: u16)
    ensures
        lookup_key_spec(f1, id1) == lookup_key_spec(f2, id2) ==> f1 == f2 && id1 == id2,
        lookup_key_spec(f1, id1) / 65536 == frequency_index(f1),
        lookup_key_spec(f1, id1) % 65536 == id1,
{
}

/// A message kind. Implemented by the generated message types; each method
/// gives the matching field of the kind's `kind_info`.
pub trait Packet {
    /// What the registry records of the kind.
    spec fn kind_info() -> PacketInfo;

    /// The message number within its frequency class.
    fn id() -> (r: u16)
        ensures
            r == Self::kind_info().id,
    ;

    /// The frequency class.
    fn frequency() -> (r: PacketFrequency)
        ensures
            r == Self::kind_info().frequency,
    ;

    /// Whether the message is sent reliably.
    fn reliable() -> (r: bool)
        ensures
            r == Self::kind_info().reliable,
    ;

    /// Whether the message body is zero-coded.
    fn zerocoded() -> (r: bool)
        ensures
            r == Self::kind_info().zerocoded,
    ;

    /// Whether the message may only come from a trusted peer.
    fn trusted() -> (r: bool)
        ensures
            r == Self::kind_info().trusted,
    ;

    /// The message name.
    fn name() -> (r: &'static str)
        ensures
            r == Self::kind_info().name,
    ;
}

/// A serialized message waiting to be sent.
#[derive(Debug, Clone)]
pub struct PacketWrapper {
    pub data: Vec<u8>,
    pub reliable: bool,
    /// Set on a retransmission (the RESENT flag of the header).
    pub resent: bool,
    pub sequence: u32,
    pub packet_id: u16,
    pub frequency: PacketFrequency,
    /// Acknowledgements carried at the end of the message.
    pub embedded_acks: Vec<u32>,
}

/// What the registry knows of a message kind.
#[derive(Debug, Clone, Copy, PartialEq, Eq)]
pub struct PacketInfo {
    pub name: &'static str,
    pub id: u16,
    pub frequency: PacketFrequency,
    pub reliable: bool,
    pub zerocoded: bool,
    pub trusted: bool,
}

/// The registry key of a message kind.
pub open spec fn info_key(i: PacketInfo) -> u32 {
    lookup_key_spec(i.frequency, i.id)
}

/// The message kinds known to the client, by registry key.
#[derive(Debug)]
pub struct PacketRegistry {
    entries: HashMap<u32, PacketInfo>,
}

impl View for PacketRegistry {
    type V = Map<u32, PacketInfo>;

    closed spec fn view(&self) -> Map<u32, PacketInfo> {
        self.entries@
    }
}

impl PacketRegistry {
    /// An empty registry.
    pub fn new() -> (r: Self)
        ensures
            r@ == Map::<u32, PacketInfo>::empty(),
    {
        PacketRegistry { entries: HashMap::new() }
    }

    /// Registers a message kind under its key, replacing what was there.
    pub fn register_info(&mut self, info: PacketInfo)
        ensures
            final(self)@ == old(self)@.insert(info_key(info), info),
    {
        let key = lookup_key(info.frequency, info.id);
        self.entries.insert(key, info);
    }

    /// Registers the message kind `P`.
    pub fn register<P: Packet>(&mut self)
        ensures
            final(self)@ == old(self)@.insert(info_key(P::kind_info()), P::kind_info()),
    {
        let info = PacketInfo {
            name: P::name(),
            id: P::id(),
            frequency: P::frequency(),
            reliable: P::reliable(),
            zerocoded: P::zerocoded(),
            trusted: P::trusted(),
        };
        self.register_info(info);
    }

    /// The kind registered under `key`.
    pub fn get(&self, key: u32) -> (r: Option<&PacketInfo>)
        ensures
            r matches Some(i) ==> self@.contains_key(key) && self@[key] == *i,
            r is None ==> !self@.contains_key(key),
    {
        self.entries.get(&key)
    }
}

/// A registry holding the given message kinds (a later kind replaces an
/// earlier one with the same key).
pub fn init_packet_registry(infos: &Vec<PacketInfo>) -> (r: PacketRegistry)
    ensures
        forall|k: u32| #[trigger] r@.contains_key(k) <==> exists|i: int| 0 <= i < infos@.len() && info_key(infos@[i]) == k,
        forall|i: int| 0 <= i < infos@.len() ==> #[trigger] r@[info_key(infos@[i])].id == infos@[i].id,
        forall|i: int|
            0 <= i < infos@.len() && (forall|j: int| i < j < infos@.len() ==> info_key(infos@[j]) != info_key(infos@[i]))
                ==> #[trigger] r@[info_key(infos@[i])] == infos@[i],
{
    let mut r = PacketRegistry::new();
    let mut j: usize = 0;
    while j < infos.len()
        invariant
            j <= infos.len(),
            forall|k: u32| #[trigger] r@.contains_key(k) <==> exists|i: int| 0 <= i < j && info_key(infos@[i]) == k,
            forall|i: int| 0 <= i < j ==> #[trigger] r@[info_key(infos@[i])].id == infos@[i].id,
            forall|i: int|
                0 <= i < j && (forall|m: int| i < m < j ==> info_key(infos@[m]) != info_key(infos@[i]))
                    ==> #[trigger] r@[info_key(infos@[i])] == infos@[i],
        decreases infos.len() - j,
    {
        let info = infos[j];
        r.register_info(info);
        proof {
            assert forall|k: u32| #[trigger] r@.contains_key(k) <==> exists|i: int| 0 <= i < j + 1 && info_key(infos@[i]) == k by {
                if k == info_key(infos@[j as int]) {
                    assert(0 <= j < j + 1 && info_key(infos@[j as int]) == k);
                }
            }
            assert forall|i: int| 0 <= i < j + 1 implies #[trigger] r@[info_key(infos@[i])].id == infos@[i].id by {
                if info_key(infos@[i]) == info_key(infos@[j as int]) {
                    lemma_lookup_key_injective(infos@[i].frequency, infos@[i].id, infos@[j as int].frequency, infos@[j as int].id);
                }
            }
            assert forall|i: int|
                0 <= i < j + 1 && (forall|m: int| i < m < j + 1 ==> info_key(infos@[m]) != info_key(infos@[i]))
                implies #[trigger] r@[info_key(infos@[i])] == infos@[i] by {
                if i < j {
                    assert(info_key(infos@[j as int]) != info_key(infos@[i]));
                    assert forall|m: int| i < m < j implies info_key(infos@[m]) != info_key(infos@[i]) by {
                        assert(i < m < j + 1);
                    }
                }
            }
        }
        j = j + 1;
    }
    r
}

/// The kind registered under `lookup_key`.
pub fn get_packet_info(registry: &PacketRegistry, lookup_key: u32) -> (r: Option<&PacketInfo>)
    ensures
        r matches Some(i) ==> registry@.contains_key(lookup_key) && registry@[lookup_key] == *i,
        r is None ==> !registry@.contains_key(lookup_key),
{
    registry.get(lookup_key)
}

/// The kind with message number `id` in frequency class `frequency`.
pub fn get_packet_info_by_id(registry: &PacketRegistry, id: u16, frequency: PacketFrequency) -> (r: Option<&PacketInfo>)
    ensures
        r matches Some(i) ==> registry@.contains_key(lookup_key_spec(frequency, id)) && registry@[lookup_key_spec(frequency, id)] == *i,
        r is None ==> !registry@.contains_key(lookup_key_spec(frequency, id)),
{
    let key = lookup_key(frequency, id);
    get_packet_info(registry, key)
}

/// A kind just registered is found again under its key and by its number
/// and class; the other keys keep what they had.
pub proof fn lemma_register_then_lookup(before: Map<u32, PacketInfo>, info: PacketInfo, k: u32)
    ensures
        before.insert(info_key(info), info).contains_key(lookup_key_spec(info.frequency, info.id)),
        before.insert(info_key(info), info)[lookup_key_spec(info.frequency, info.id)] == info,
        k != info_key(info) ==> (before.insert(info_key(info), info).contains_key(k)
            == before.contains_key(k) && before.insert(info_key(info), info)[k] == before[k]),
{
}

} // verus!
