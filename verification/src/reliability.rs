//! Reliable delivery on a circuit: recognizing messages received before,
//! collecting the acknowledgements to send, and keeping reliable messages
//! until the simulator acknowledges them, resending them a bounded number of
//! times.

use vstd::prelude::*;
use std::time::Instant;
use crate::packets::{PacketWrapper, lookup_key, lookup_key_spec};
use crate::error::{NetworkError, NetworkErrorView, transport_error};
use crate::bytes_util::{le32_at, read_le32};

verus! {

/// A reliable message waiting for its acknowledgement.
#[derive(Debug)]
pub struct PendingPacket {
    pub packet: PacketWrapper,
    /// When it was last sent.
    pub sent_at: Instant,
    /// How often it has been resent.
    pub retry_count: u8,
}

/// The size of the window of received sequence numbers kept for spotting
/// duplicates.
pub const RECEIVED_WINDOW: usize = 256;

/// Acknowledgement bookkeeping of a circuit.
#[derive(Debug)]
pub struct Acknowledger {
    pending_reliable: Vec<(u32, PendingPacket)>,
    received_sequences: Vec<u32>,
    pending_acks: Vec<u32>,
    max_received_window: usize,
}

/// The sequence numbers of entries, in order.
pub open spec fn entry_keys(es: Seq<(u32, PendingPacket)>) -> Seq<u32> {
    es.map_values(|e: (u32, PendingPacket)| e.0)
}

/// Whether no value occurs twice.
pub open spec fn distinct(s: Seq<u32>) -> bool {
    forall|i: int, j: int| 0 <= i < j < s.len() ==> s[i] != s[j]
}

/// The window after `seq` arrived: appended, and the oldest entry dropped
/// when the window is over its size.
pub open spec fn window_after(w: Seq<u32>, seq: u32) -> Seq<u32> {
    if w.len() + 1 > RECEIVED_WINDOW {
        w.push(seq).drop_first()
    } else {
        w.push(seq)
    }
}

/// Two messages with the same content (the RESENT flag aside).
pub open spec fn same_content(a: PacketWrapper, b: PacketWrapper) -> bool {
    &&& a.data@ == b.data@
    &&& a.reliable == b.reliable
    &&& a.sequence == b.sequence
    &&& a.packet_id == b.packet_id
    &&& a.frequency == b.frequency
    &&& a.embedded_acks@ == b.embedded_acks@
}

/// The entries after the due ones were handled: a due entry resent
/// `max_retries` times already is dropped, another due entry is counted as
/// resent once more at `now`, and the others stay as they are.
pub open spec fn after_retransmit(
    es: Seq<(u32, PendingPacket)>,
    due: Seq<u32>,
    max_retries: u8,
    now: Instant,
) -> Seq<(u32, PendingPacket)>
    decreases es.len(),
{
    if es.len() == 0 {
        Seq::empty()
    } else {
        let rest = after_retransmit(es.drop_last(), due, max_retries, now);
        let e = es.last();
        if due.contains(e.0) {
            if e.1.retry_count >= max_retries {
                rest
            } else {
                rest.push(
                    (
                        e.0,
                        PendingPacket {
                            packet: e.1.packet,
                            sent_at: now,
                            retry_count: (e.1.retry_count + 1) as u8,
                        },
                    ),
                )
            }
        } else {
            rest.push(e)
        }
    }
}

/// The entries that are resent, in order: the due ones not yet resent
/// `max_retries` times.
pub open spec fn resent_entries(es: Seq<(u32, PendingPacket)>, due: Seq<u32>, max_retries: u8) -> Seq<
    (u32, PendingPacket),
>
    decreases es.len(),
{
    if es.len() == 0 {
        Seq::empty()
    } else {
        let rest = resent_entries(es.drop_last(), due, max_retries);
        let e = es.last();
        if due.contains(e.0) && e.1.retry_count < max_retries {
            rest.push(e)
        } else {
            rest
        }
    }
}


/// The RELIABLE flag of a datagram header: the sender wants an acknowledgement.
pub const RELIABLE_FLAG: u8 = 0x40;

/// The message number in a datagram: none in one shorter than 7 bytes; the
/// low 16 bits of the little-endian word at offset 6 where byte 5 is 0xFF and
/// the datagram has at least 10 bytes; byte 6 otherwise.
pub open spec fn incoming_packet_id_spec(d: Seq<u8>) -> Option<u32> {
    if d.len() < 7 {
        None
    } else if d[5] == 0xFF && d.len() >= 10 {
        Some(le32_at(d, 6) & 0xFFFF)
    } else {
        Some(d[6] as u32)
    }
}

/// The message number read from an incoming datagram.
pub fn incoming_packet_id(packet_data: &[u8]) -> (r: Option<u32>)
    ensures
        r == incoming_packet_id_spec(packet_data@),
{
    if packet_data.len() < 7 {
        None
    } else if packet_data[5] == 0xFF && packet_data.len() >= 10 {
        Some(read_le32(packet_data, 6) & 0xFFFF)
    } else {
        Some(packet_data[6] as u32)
    }
}

fn copy_u32s(v: &Vec<u32>) -> (r: Vec<u32>)
    ensures
        r@ == v@,
{
    let mut r: Vec<u32> = Vec::new();
    let mut i: usize = 0;
    while i < v.len()
        invariant
            i <= v.len(),
            r@ == v@.take(i as int),
        decreases v.len() - i,
    {
        r.push(v[i]);
        i = i + 1;
        assert(r@ =~= v@.take(i as int));
    }
    assert(v@.take(v.len() as int) =~= v@);
    r
}

/// A copy of a message marked as resent.
fn resent_copy(p: &PacketWrapper) -> (w: PacketWrapper)
    ensures
        same_content(w, *p),
        w.resent,
{
    let data = crate::bytes_util::copy_bytes(p.data.as_slice(), 0, p.data.len());
    assert(data@ =~= p.data@);
    PacketWrapper {
        data,
        reliable: p.reliable,
        resent: true,
        sequence: p.sequence,
        packet_id: p.packet_id,
        frequency: p.frequency,
        embedded_acks: copy_u32s(&p.embedded_acks),
    }
}

fn contains_u32(v: &Vec<u32>, x: u32) -> (r: bool)
    ensures
        r == v@.contains(x),
{
    let mut i: usize = 0;
    while i < v.len()
        invariant
            i <= v.len(),
            forall|k: int| 0 <= k < i ==> v@[k] != x,
        decreases v.len() - i,
    {
        if v[i] == x {
            assert(v@[i as int] == x);
            return true;
        }
        i = i + 1;
    }
    false
}

impl Acknowledger {
    /// The reliable messages waiting for acknowledgement, by sequence number.
    pub closed spec fn pending(&self) -> Seq<(u32, PendingPacket)> {
        self.pending_reliable@
    }

    /// The sequence numbers received most recently, oldest first.
    pub closed spec fn received(&self) -> Seq<u32> {
        self.received_sequences@
    }

    /// The acknowledgements waiting to be sent.
    pub closed spec fn acks(&self) -> Seq<u32> {
        self.pending_acks@
    }

    /// Each message is pending once, each received number is remembered
    /// once, and the window holds at most its size.
    pub closed spec fn wf(&self) -> bool {
        &&& distinct(entry_keys(self.pending_reliable@))
        &&& distinct(self.received_sequences@)
        &&& self.received_sequences@.len() <= RECEIVED_WINDOW
        &&& self.max_received_window == RECEIVED_WINDOW
    }

    /// Nothing pending, received or to acknowledge.
    pub fn new() -> (a: Self)
        ensures
            a.wf(),
            a.pending() == Seq::<(u32, PendingPacket)>::empty(),
            a.received() == Seq::<u32>::empty(),
            a.acks() == Seq::<u32>::empty(),
    {
        Acknowledger {
            pending_reliable: Vec::new(),
            received_sequences: Vec::new(),
            pending_acks: Vec::new(),
            max_received_window: RECEIVED_WINDOW,
        }
    }

    /// Whether `sequence` was not received recently; a new number is
    /// remembered, the oldest being forgotten when the window is full.
    pub fn is_sequence_new(&mut self, sequence: u32) -> (r: bool)
        requires
            old(self).wf(),
        ensures
            final(self).wf(),
            r == !old(self).received().contains(sequence),
            r ==> final(self).received() == window_after(old(self).received(), sequence),
            !r ==> final(self).received() == old(self).received(),
            final(self).pending() == old(self).pending(),
            final(self).acks() == old(self).acks(),
    {
        if contains_u32(&self.received_sequences, sequence) {
            return false;
        }
        let ghost w = self.received_sequences@;
        self.received_sequences.push(sequence);
        if self.received_sequences.len() > self.max_received_window {
            self.received_sequences.remove(0);
        }
        proof {
            assert(w.push(sequence).len() == w.len() + 1);
            if w.len() + 1 > RECEIVED_WINDOW {
                assert(self.received_sequences@ =~= w.push(sequence).drop_first());
            }
            let f = self.received_sequences@;
            assert forall|i: int, j: int| 0 <= i < j < f.len() implies f[i] != f[j] by {
                let ps = w.push(sequence);
                if w.len() + 1 > RECEIVED_WINDOW {
                    assert(f[i] == ps[i + 1] && f[j] == ps[j + 1]);
                    if j + 1 == w.len() {
                        assert(!w.contains(sequence));
                        assert(w[i + 1] == ps[i + 1]);
                    }
                } else {
                    if j == w.len() {
                        assert(w[i] == f[i]);
                    }
                }
            }
        }
        true
    }

    /// Queues an acknowledgement of `sequence`.
    pub fn queue_ack(&mut self, sequence: u32)
        ensures
            final(self).acks() == old(self).acks().push(sequence),
            final(self).pending() == old(self).pending(),
            final(self).received() == old(self).received(),
            old(self).wf() ==> final(self).wf(),
    {
        self.pending_acks.push(sequence);
    }

    /// The queued acknowledgements, in order; none remain queued.
    pub fn take_pending_acks(&mut self) -> (acks: Vec<u32>)
        ensures
            acks@ == old(self).acks(),
            final(self).acks() == Seq::<u32>::empty(),
            final(self).pending() == old(self).pending(),
            final(self).received() == old(self).received(),
            old(self).wf() ==> final(self).wf(),
    {
        let mut taken: Vec<u32> = Vec::new();
        std::mem::swap(&mut taken, &mut self.pending_acks);
        taken
    }

    /// Index of the pending entry for `sequence`, if any.
    fn find_pending(&self, sequence: u32) -> (r: Option<usize>)
        ensures
            r matches Some(i) ==> i < self.pending_reliable@.len() && self.pending_reliable@[i as int].0 == sequence,
            r is None ==> !entry_keys(self.pending_reliable@).contains(sequence),
    {
        let mut i: usize = 0;
        while i < self.pending_reliable.len()
            invariant
                i <= self.pending_reliable.len(),
                forall|k: int| 0 <= k < i ==> self.pending_reliable@[k].0 != sequence,
            decreases self.pending_reliable.len() - i,
        {
            if self.pending_reliable[i].0 == sequence {
                return Some(i);
            }
            i = i + 1;
        }
        proof {
            if entry_keys(self.pending_reliable@).contains(sequence) {
                let k = choose|k: int| 0 <= k < entry_keys(self.pending_reliable@).len() && entry_keys(self.pending_reliable@)[k] == sequence;
                assert(self.pending_reliable@[k].0 == sequence);
            }
        }
        None
    }

    /// Keeps `packet`, sent at `sent_at`, until `sequence` is acknowledged,
    /// replacing what was kept under that number.
    pub fn add_pending_reliable(&mut self, sequence: u32, packet: PacketWrapper, sent_at: Instant)
        requires
            old(self).wf(),
        ensures
            final(self).wf(),
            entry_keys(final(self).pending()).contains(sequence),
            final(self).pending().last() == (sequence, PendingPacket { packet, sent_at, retry_count: 0 }),
            forall|k: u32| k != sequence ==> (entry_keys(final(self).pending()).contains(k) <==> entry_keys(old(self).pending()).contains(k)),
            final(self).received() == old(self).received(),
            final(self).acks() == old(self).acks(),
    {
        let ghost before = self.pending_reliable@;
        if let Some(i) = self.find_pending(sequence) {
            let _old_entry = self.pending_reliable.remove(i);
            proof {
                lemma_remove_keys(before, i as int);
            }
        }
        let ghost mid = self.pending_reliable@;
        self.pending_reliable.push((sequence, PendingPacket { packet, sent_at, retry_count: 0 }));
        proof {
            let f = self.pending_reliable@;
            assert(entry_keys(f) =~= entry_keys(mid).push(sequence));
            assert(!entry_keys(mid).contains(sequence));
            assert(entry_keys(f)[f.len() - 1] == sequence);
            assert forall|k: u32| k != sequence implies (entry_keys(f).contains(k) <==> entry_keys(mid).contains(k)) by {
                if entry_keys(f).contains(k) {
                    let a = choose|a: int| 0 <= a < entry_keys(f).len() && entry_keys(f)[a] == k;
                    assert(a < entry_keys(mid).len());
                    assert(entry_keys(mid)[a] == k);
                }
                if entry_keys(mid).contains(k) {
                    let a = choose|a: int| 0 <= a < entry_keys(mid).len() && entry_keys(mid)[a] == k;
                    assert(entry_keys(f)[a] == k);
                }
            }
        }
    }

    /// Takes note of the acknowledgement of `sequence`: whether a message was
    /// waiting for it, which then no longer waits.
    pub fn handle_ack(&mut self, sequence: u32) -> (r: bool)
        requires
            old(self).wf(),
        ensures
            final(self).wf(),
            r == entry_keys(old(self).pending()).contains(sequence),
            !entry_keys(final(self).pending()).contains(sequence),
            forall|k: u32| k != sequence ==> (entry_keys(final(self).pending()).contains(k) <==> entry_keys(old(self).pending()).contains(k)),
            !r ==> final(self).pending() == old(self).pending(),
            final(self).received() == old(self).received(),
            final(self).acks() == old(self).acks(),
    {
        match self.find_pending(sequence) {
            Some(i) => {
                let ghost before = self.pending_reliable@;
                let _entry = self.pending_reliable.remove(i);
                proof {
                    lemma_remove_keys(before, i as int);
                    assert(entry_keys(before)[i as int] == sequence);
                }
                true
            },
            None => false,
        }
    }

    /// Takes note of each acknowledgement in `ids`: no message waits for any
    /// of them any longer, the others still wait.
    pub fn handle_acks(&mut self, ids: &Vec<u32>)
        requires
            old(self).wf(),
        ensures
            final(self).wf(),
            forall|k: u32|
                #![trigger entry_keys(final(self).pending()).contains(k)]
                #![trigger entry_keys(old(self).pending()).contains(k)]
                entry_keys(final(self).pending()).contains(k) <==> (entry_keys(old(self).pending()).contains(k)
                    && !ids@.contains(k)),
            final(self).received() == old(self).received(),
            final(self).acks() == old(self).acks(),
    {
        let mut i: usize = 0;
        while i < ids.len()
            invariant
                self.wf(),
                i <= ids.len(),
                forall|k: u32|
                    entry_keys(self.pending()).contains(k) <==> (entry_keys(old(self).pending()).contains(k)
                        && !ids@.take(i as int).contains(k)),
                self.received() == old(self).received(),
                self.acks() == old(self).acks(),
            decreases ids.len() - i,
        {
            let _was_pending = self.handle_ack(ids[i]);
            proof {
                let t = ids@.take(i as int);
                let t1 = ids@.take(i + 1);
                assert(t1 =~= t.push(ids@[i as int]));
                assert forall|k: u32| t1.contains(k) <==> (t.contains(k) || k == ids@[i as int]) by {
                    if t1.contains(k) {
                        let a = choose|a: int| 0 <= a < t1.len() && t1[a] == k;
                        if a < t.len() {
                            assert(t[a] == k);
                        }
                    }
                    if t.contains(k) {
                        let a = choose|a: int| 0 <= a < t.len() && t[a] == k;
                        assert(t1[a] == k);
                    }
                    if k == ids@[i as int] {
                        assert(t1[i as int] == k);
                    }
                }
            }
            i = i + 1;
        }
        assert(ids@.take(ids.len() as int) =~= ids@);
    }

    /// Reads the header of an incoming datagram. One shorter than 6 bytes is
    /// refused. Otherwise, where the RELIABLE flag is set in byte 0 and the
    /// sequence number (bytes 1 to 4, little-endian) was not received
    /// recently, the number is remembered and its acknowledgement queued.
    /// Returns the message number, where the datagram holds one.
    pub fn handle_incoming_packet(&mut self, packet_data: &[u8]) -> (r: Result<Option<u32>, NetworkError>)
        requires
            old(self).wf(),
        ensures
            final(self).wf(),
            final(self).pending() == old(self).pending(),
            packet_data@.len() < 6 ==> {
                &&& r matches Err(e) && e@ == (NetworkErrorView::Transport { reason: "Packet too short for header"@ })
                &&& final(self).received() == old(self).received()
                &&& final(self).acks() == old(self).acks()
            },
            packet_data@.len() >= 6 ==> {
                let seq = le32_at(packet_data@, 1);
                &&& r == Ok::<Option<u32>, NetworkError>(incoming_packet_id_spec(packet_data@))
                &&& if packet_data@[0] & RELIABLE_FLAG != 0 && !old(self).received().contains(seq) {
                    &&& final(self).received() == window_after(old(self).received(), seq)
                    &&& final(self).acks() == old(self).acks().push(seq)
                } else {
                    &&& final(self).received() == old(self).received()
                    &&& final(self).acks() == old(self).acks()
                }
            },
    {
        if packet_data.len() < 6 {
            return Err(transport_error("Packet too short for header"));
        }
        let flags = packet_data[0];
        let sequence = read_le32(packet_data, 1);
        if flags & RELIABLE_FLAG != 0 {
            if self.is_sequence_new(sequence) {
                self.queue_ack(sequence);
            }
        }
        Ok(incoming_packet_id(packet_data))
    }

    /// Takes in a decoded message. A reliable one whose sequence number was
    /// received recently is a duplicate: it is dropped (`None`) and nothing
    /// changes. Otherwise a reliable one has its number remembered and its
    /// acknowledgement queued, the acknowledgements it carries are taken note
    /// of, and its registry key is returned for dispatch.
    pub fn inject_packet(&mut self, packet: &PacketWrapper) -> (r: Option<u32>)
        requires
            old(self).wf(),
        ensures
            final(self).wf(),
            packet.reliable && old(self).received().contains(packet.sequence) ==> {
                &&& r is None
                &&& final(self).pending() == old(self).pending()
                &&& final(self).received() == old(self).received()
                &&& final(self).acks() == old(self).acks()
            },
            !(packet.reliable && old(self).received().contains(packet.sequence)) ==> {
                &&& r == Some(lookup_key_spec(packet.frequency, packet.packet_id))
                &&& packet.reliable ==> final(self).received() == window_after(old(self).received(), packet.sequence)
                    && final(self).acks() == old(self).acks().push(packet.sequence)
                &&& !packet.reliable ==> final(self).received() == old(self).received() && final(self).acks()
                    == old(self).acks()
                &&& forall|k: u32|
                    #![trigger entry_keys(final(self).pending()).contains(k)]
                    #![trigger entry_keys(old(self).pending()).contains(k)]
                    entry_keys(final(self).pending()).contains(k) <==> (entry_keys(old(self).pending()).contains(k)
                        && !packet.embedded_acks@.contains(k))
            },
    {
        if packet.reliable {
            if !self.is_sequence_new(packet.sequence) {
                return None;
            }
            self.queue_ack(packet.sequence);
        }
        self.handle_acks(&packet.embedded_acks);
        Some(lookup_key(packet.frequency, packet.packet_id))
    }

    /// Acknowledges the message that has waited longest, if any: whether
    /// there was one.
    pub fn acknowledge_first_pending(&mut self) -> (r: bool)
        requires
            old(self).wf(),
        ensures
            final(self).wf(),
            r == (old(self).pending().len() > 0),
            r ==> final(self).pending() == old(self).pending().drop_first(),
            !r ==> final(self).pending() == old(self).pending(),
            final(self).received() == old(self).received(),
            final(self).acks() == old(self).acks(),
    {
        if self.pending_reliable.len() == 0 {
            return false;
        }
        let ghost before = self.pending_reliable@;
        let _first = self.pending_reliable.remove(0);
        proof {
            lemma_remove_keys(before, 0);
            assert(before.remove(0) =~= before.drop_first());
        }
        true
    }

    /// For each waiting message, in the order they wait: the number it waits
    /// under, the sequence number in its header, when it was last sent and
    /// how often it was resent.
    pub fn pending_timing(&self) -> (v: Vec<(u32, u32, Instant, u8)>)
        ensures
            v@.len() == self.pending().len(),
            forall|i: int|
                0 <= i < v@.len() ==> #[trigger] v@[i] == (self.pending()[i].0, self.pending()[i].1.packet.sequence,
                    self.pending()[i].1.sent_at, self.pending()[i].1.retry_count),
    {
        let mut v: Vec<(u32, u32, Instant, u8)> = Vec::new();
        let mut i: usize = 0;
        while i < self.pending_reliable.len()
            invariant
                i <= self.pending_reliable.len(),
                v@.len() == i,
                forall|k: int|
                    0 <= k < i ==> #[trigger] v@[k] == (self.pending_reliable@[k].0,
                        self.pending_reliable@[k].1.packet.sequence, self.pending_reliable@[k].1.sent_at,
                        self.pending_reliable@[k].1.retry_count),
            decreases self.pending_reliable.len() - i,
        {
            let e = &self.pending_reliable[i];
            v.push((e.0, e.1.packet.sequence, e.1.sent_at, e.1.retry_count));
            i = i + 1;
        }
        v
    }

    /// Handles the messages whose retry timeout has passed (`due`, by
    /// sequence number): one already resent `max_retries` times is given up,
    /// any other is counted as resent at `now` and returned, marked as
    /// resent, for sending again.
    pub fn get_retransmits(&mut self, due: &Vec<u32>, now: Instant, max_retries: u8) -> (out: Vec<(u32, PacketWrapper)>)
        requires
            old(self).wf(),
        ensures
            final(self).wf(),
            final(self).pending() == after_retransmit(old(self).pending(), due@, max_retries, now),
            out@.len() == resent_entries(old(self).pending(), due@, max_retries).len(),
            forall|i: int| 0 <= i < out@.len() ==> {
                let e = #[trigger] resent_entries(old(self).pending(), due@, max_retries)[i];
                &&& out@[i].0 == e.0
                &&& out@[i].1.resent
                &&& same_content(out@[i].1, e.1.packet)
            },
            final(self).received() == old(self).received(),
            final(self).acks() == old(self).acks(),
    {
        let ghost es = self.pending_reliable@;
        let mut rest: Vec<(u32, PendingPacket)> = Vec::new();
        std::mem::swap(&mut rest, &mut self.pending_reliable);
        let mut out: Vec<(u32, PacketWrapper)> = Vec::new();
        let mut n: usize = 0;
        let total = rest.len();
        while rest.len() > 0
            invariant
                n + rest@.len() == total,
                total == es.len(),
                rest@ == es.skip(n as int),
                self.pending_reliable@ == after_retransmit(es.take(n as int), due@, max_retries, now),
                out@.len() == resent_entries(es.take(n as int), due@, max_retries).len(),
                forall|i: int| 0 <= i < out@.len() ==> {
                    let e = #[trigger] resent_entries(es.take(n as int), due@, max_retries)[i];
                    &&& out@[i].0 == e.0
                    &&& out@[i].1.resent
                    &&& same_content(out@[i].1, e.1.packet)
                },
                self.received_sequences@ == old(self).received_sequences@,
                self.pending_acks@ == old(self).pending_acks@,
                self.max_received_window == old(self).max_received_window,
            decreases rest.len(),
        {
            let e = rest.remove(0);
            proof {
                assert(e == es[n as int]);
                assert(es.take(n + 1).drop_last() =~= es.take(n as int));
                assert(es.take(n + 1).last() == es[n as int]);
            }
            let (sequence, pending) = e;
            if contains_u32(due, sequence) {
                if pending.retry_count >= max_retries {
                } else {
                    let copy = resent_copy(&pending.packet);
                    out.push((sequence, copy));
                    self.pending_reliable.push(
                        (
                            sequence,
                            PendingPacket {
                                packet: pending.packet,
                                sent_at: now,
                                retry_count: pending.retry_count + 1,
                            },
                        ),
                    );
                }
            } else {
                self.pending_reliable.push((sequence, pending));
            }
            n = n + 1;
            assert(rest@ =~= es.skip(n as int));
        }
        assert(es.take(n as int) =~= es);
        proof {
            lemma_after_retransmit_keys(es, due@, max_retries, now);
            let f = self.pending_reliable@;
            assert forall|i: int, j: int| 0 <= i < j < entry_keys(f).len() implies entry_keys(f)[i] != entry_keys(f)[j] by {
                lemma_subsequence_distinct(es, f, due@, max_retries, now, i, j);
            }
        }
        out
    }
}

/// Removing an entry removes its key and keeps the others, in order.
proof fn lemma_remove_keys(es: Seq<(u32, PendingPacket)>, i: int)
    requires
        0 <= i < es.len(),
        distinct(entry_keys(es)),
    ensures
        entry_keys(es.remove(i)) == entry_keys(es).remove(i),
        distinct(entry_keys(es.remove(i))),
        !entry_keys(es.remove(i)).contains(es[i].0),
        forall|k: u32| k != es[i].0 ==> (entry_keys(es.remove(i)).contains(k) <==> entry_keys(es).contains(k)),
{
    let ks = entry_keys(es);
    assert(entry_keys(es.remove(i)) =~= ks.remove(i));
    let r = ks.remove(i);
    assert forall|a: int, b: int| 0 <= a < b < r.len() implies r[a] != r[b] by {
        let aa = if a < i { a } else { a + 1 };
        let bb = if b < i { b } else { b + 1 };
        assert(r[a] == ks[aa] && r[b] == ks[bb]);
    }
    if r.contains(es[i].0) {
        let a = choose|a: int| 0 <= a < r.len() && r[a] == es[i].0;
        let aa = if a < i { a } else { a + 1 };
        assert(ks[aa] == ks[i]);
    }
    assert forall|k: u32| k != es[i].0 implies (r.contains(k) <==> ks.contains(k)) by {
        if ks.contains(k) {
            let a = choose|a: int| 0 <= a < ks.len() && ks[a] == k;
            assert(a != i);
            let ra = if a < i { a } else { a - 1 };
            assert(r[ra] == k);
        }
        if r.contains(k) {
            let a = choose|a: int| 0 <= a < r.len() && r[a] == k;
            let aa = if a < i { a } else { a + 1 };
            assert(ks[aa] == k);
        }
    }
}

/// Every key after retransmission was a key before.
proof fn lemma_after_retransmit_keys(es: Seq<(u32, PendingPacket)>, due: Seq<u32>, max_retries: u8, now: Instant)
    ensures
        forall|i: int| 0 <= i < after_retransmit(es, due, max_retries, now).len() ==> exists|j: int|
            0 <= j < es.len() && #[trigger] after_retransmit(es, due, max_retries, now)[i].0 == es[j].0,
    decreases es.len(),
{
    if es.len() > 0 {
        lemma_after_retransmit_keys(es.drop_last(), due, max_retries, now);
        let rest = after_retransmit(es.drop_last(), due, max_retries, now);
        let f = after_retransmit(es, due, max_retries, now);
        assert forall|i: int| 0 <= i < f.len() implies exists|j: int| 0 <= j < es.len() && #[trigger] f[i].0 == es[j].0 by {
            if i < rest.len() {
                assert(f[i] == rest[i]);
                let j = choose|j: int| 0 <= j < es.drop_last().len() && rest[i].0 == es.drop_last()[j].0;
                assert(es[j] == es.drop_last()[j]);
            } else {
                assert(f[i].0 == es[es.len() - 1].0);
            }
        }
    }
}

/// Retransmission keeps the keys distinct: it keeps entries in order and
/// drops some.
proof fn lemma_subsequence_distinct(
    es: Seq<(u32, PendingPacket)>,
    f: Seq<(u32, PendingPacket)>,
    due: Seq<u32>,
    max_retries: u8,
    now: Instant,
    i: int,
    j: int,
)
    requires
        f == after_retransmit(es, due, max_retries, now),
        distinct(entry_keys(es)),
        0 <= i < j < f.len(),
    ensures
        f[i].0 != f[j].0,
    decreases es.len(),
{
    let rest = after_retransmit(es.drop_last(), due, max_retries, now);
    assert(distinct(entry_keys(es.drop_last()))) by {
        assert forall|a: int, b: int| 0 <= a < b < entry_keys(es.drop_last()).len() implies entry_keys(es.drop_last())[a] != entry_keys(es.drop_last())[b] by {
            assert(entry_keys(es.drop_last())[a] == entry_keys(es)[a]);
            assert(entry_keys(es.drop_last())[b] == entry_keys(es)[b]);
        }
    }
    if j < rest.len() {
        assert(f[i] == rest[i] && f[j] == rest[j]);
        lemma_subsequence_distinct(es.drop_last(), rest, due, max_retries, now, i, j);
    } else {
        assert(f[j].0 == es.last().0);
        assert(f[i] == rest[i]);
        lemma_after_retransmit_keys(es.drop_last(), due, max_retries, now);
        let k = choose|k: int| 0 <= k < es.drop_last().len() && #[trigger] rest[i].0 == es.drop_last()[k].0;
        assert(entry_keys(es)[k] == es[k].0);
        assert(entry_keys(es)[es.len() - 1] == es.last().0);
        assert(es.drop_last()[k] == es[k]);
    }
}

/// A number just received stays in the window, which never grows past its
/// size: asked again, `is_sequence_new` reports it as a duplicate.
pub proof fn lemma_window_remembers(w: Seq<u32>, seq: u32)
    requires
        w.len() <= RECEIVED_WINDOW,
    ensures
        window_after(w, seq).contains(seq),
        window_after(w, seq).len() <= RECEIVED_WINDOW,
{
    let p = w.push(seq);
    assert(p[p.len() - 1] == seq);
    if w.len() + 1 > RECEIVED_WINDOW {
        assert(p.drop_first()[p.len() - 2] == seq);
    }
}

/// No message is resent more than `max_retries` times: if every pending
/// message had been resent at most that often, so has every message after
/// the due ones were handled.
pub proof fn lemma_retries_bounded(es: Seq<(u32, PendingPacket)>, due: Seq<u32>, max_retries: u8, now: Instant)
    requires
        forall|i: int| 0 <= i < es.len() ==> #[trigger] es[i].1.retry_count <= max_retries,
    ensures
        forall|i: int|
            0 <= i < after_retransmit(es, due, max_retries, now).len() ==> #[trigger] after_retransmit(
                es,
                due,
                max_retries,
                now,
            )[i].1.retry_count <= max_retries,
    decreases es.len(),
{
    if es.len() > 0 {
        assert forall|i: int| 0 <= i < es.drop_last().len() implies #[trigger] es.drop_last()[i].1.retry_count <= max_retries by {
            assert(es.drop_last()[i] == es[i]);
        }
        lemma_retries_bounded(es.drop_last(), due, max_retries, now);
        assert(es.last() == es[es.len() - 1]);
    }
}

/// A message whose number is not due is neither resent nor dropped: it
/// keeps its place among the pending ones with its count and send time.
pub proof fn lemma_not_due_untouched(es: Seq<(u32, PendingPacket)>, due: Seq<u32>, max_retries: u8, now: Instant, i: int)
    requires
        0 <= i < es.len(),
        !due.contains(es[i].0),
    ensures
        after_retransmit(es, due, max_retries, now).contains(es[i]),
        !resent_entries(es, due, max_retries).contains(es[i]),
    decreases es.len(),
{
    let rest = after_retransmit(es.drop_last(), due, max_retries, now);
    if i == es.len() - 1 {
        let f = after_retransmit(es, due, max_retries, now);
        assert(f[f.len() - 1] == es[i]);
        lemma_resent_are_due(es.drop_last(), due, max_retries);
        if resent_entries(es, due, max_retries).contains(es[i]) {
            let r = resent_entries(es.drop_last(), due, max_retries);
            assert(resent_entries(es, due, max_retries) == r);
            let k = choose|k: int| 0 <= k < r.len() && r[k] == es[i];
        }
    } else {
        assert(es.drop_last()[i] == es[i]);
        lemma_not_due_untouched(es.drop_last(), due, max_retries, now, i);
        let k = choose|k: int| 0 <= k < rest.len() && rest[k] == es[i];
        let f = after_retransmit(es, due, max_retries, now);
        assert(f[k] == rest[k]);
        if resent_entries(es, due, max_retries).contains(es[i]) {
            let r = resent_entries(es, due, max_retries);
            let m = choose|m: int| 0 <= m < r.len() && r[m] == es[i];
            lemma_resent_are_due(es, due, max_retries);
        }
    }
}

/// Every entry resent is due.
proof fn lemma_resent_are_due(es: Seq<(u32, PendingPacket)>, due: Seq<u32>, max_retries: u8)
    ensures
        forall|k: int| 0 <= k < resent_entries(es, due, max_retries).len() ==> due.contains(
            #[trigger] resent_entries(es, due, max_retries)[k].0,
        ),
    decreases es.len(),
{
    if es.len() > 0 {
        lemma_resent_are_due(es.drop_last(), due, max_retries);
        let r = resent_entries(es.drop_last(), due, max_retries);
        let f = resent_entries(es, due, max_retries);
        assert forall|k: int| 0 <= k < f.len() implies due.contains(#[trigger] f[k].0) by {
            if k < r.len() {
                assert(f[k] == r[k]);
            } else {
                assert(f[k] == es.last());
            }
        }
    }
}


/// An acknowledged message is never resent: once `handle_ack` has taken its
/// number out of the pending messages, no entry that `get_retransmits`
/// resends carries that number.
pub proof fn lemma_acked_not_resent(es: Seq<(u32, PendingPacket)>, due: Seq<u32>, max_retries: u8, seq: u32)
    requires
        !entry_keys(es).contains(seq),
    ensures
        forall|i: int|
            0 <= i < resent_entries(es, due, max_retries).len() ==> #[trigger] resent_entries(es, due, max_retries)[i].0
                != seq,
    decreases es.len(),
{
    if es.len() > 0 {
        let d = es.drop_last();
        assert(!entry_keys(d).contains(seq)) by {
            if entry_keys(d).contains(seq) {
                let k = choose|k: int| 0 <= k < entry_keys(d).len() && entry_keys(d)[k] == seq;
                assert(entry_keys(es)[k] == seq);
            }
        }
        lemma_acked_not_resent(d, due, max_retries, seq);
        assert(entry_keys(es)[es.len() - 1] == es.last().0);
        assert(es.last().0 != seq);
        let rest = resent_entries(d, due, max_retries);
        let r = resent_entries(es, due, max_retries);
        assert forall|i: int| 0 <= i < r.len() implies #[trigger] r[i].0 != seq by {
            if i < rest.len() {
                assert(r[i] == rest[i]);
            } else {
                assert(r[i] == es.last());
            }
        }
    }
}

} // verus!
