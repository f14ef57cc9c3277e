//! Health of a circuit, measured by pings: which pings are outstanding, the
//! round-trip times of the last replies, the share of pings lost lately, and
//! the circuit state that follows from them.

use vstd::prelude::*;
use std::time::Instant;
use crate::time_util::{instant_now, instant_elapsed, duration_as_millis, duration_from_millis, duration_longer};

verus! {

/// How many round-trip times the average is taken over.
pub const RTT_HISTORY_LEN: usize = 20;

/// How many ping outcomes the loss share is taken over.
pub const LOSS_WINDOW_LEN: usize = 50;

/// The average round-trip time assumed before any reply.
pub const DEFAULT_AVG_RTT_MS: u64 = 100;

/// The average round-trip time above which a circuit counts as degraded.
pub const DEGRADED_RTT_MS: u64 = 500;

/// `w` with `x` appended, the oldest entry dropped when that makes it longer
/// than `cap`.
pub open spec fn bounded_push<T>(w: Seq<T>, x: T, cap: nat) -> Seq<T> {
    if w.len() + 1 > cap {
        w.push(x).drop_first()
    } else {
        w.push(x)
    }
}

/// `bounded_push` applied `n` times with the same value.
pub open spec fn bounded_push_n<T>(w: Seq<T>, x: T, n: nat, cap: nat) -> Seq<T>
    decreases n,
{
    if n == 0 {
        w
    } else {
        bounded_push(bounded_push_n(w, x, (n - 1) as nat, cap), x, cap)
    }
}

/// The sum of the values.
pub open spec fn sum_ms(s: Seq<u64>) -> int
    decreases s.len(),
{
    if s.len() == 0 {
        0
    } else {
        sum_ms(s.drop_last()) + s.last()
    }
}

/// How many outcomes are losses.
pub open spec fn losses(s: Seq<bool>) -> nat
    decreases s.len(),
{
    if s.len() == 0 {
        0
    } else {
        losses(s.drop_last()) + if s.last() {
            0nat
        } else {
            1nat
        }
    }
}

/// The average of the round-trip times, or the assumed one when there are
/// none.
pub open spec fn average_ms(s: Seq<u64>) -> int {
    if s.len() == 0 {
        DEFAULT_AVG_RTT_MS as int
    } else {
        sum_ms(s) / (s.len() as int)
    }
}

/// The ping number used after `id`: numbers run from 1 to 255 and start over,
/// 0 is never used.
pub open spec fn next_ping_id_after(id: u8) -> u8 {
    if id == 255 {
        1
    } else {
        (id + 1) as u8
    }
}

/// The numbers of entries, in order.
pub open spec fn ping_ids(es: Seq<(u8, Instant)>) -> Seq<u8> {
    es.map_values(|e: (u8, Instant)| e.0)
}

/// Whether no number occurs twice.
pub open spec fn distinct_ids(s: Seq<u8>) -> bool {
    forall|i: int, j: int| 0 <= i < j < s.len() ==> s[i] != s[j]
}

/// Whether a circuit with this loss count over this window and this average
/// round-trip time counts as degraded: more than 5% of the pings lost, or an
/// average above 500 ms.
pub open spec fn degraded_spec(failures: nat, window: nat, avg_ms: int) -> bool {
    failures * 20 > window || avg_ms > DEGRADED_RTT_MS
}

/// The health of a circuit at one moment.
#[derive(Debug, Clone, Copy)]
pub struct ConnectionHealth {
    /// Pings lost among the last ones.
    pub loss_failures: usize,
    /// How many of the last pings the loss count is taken over.
    pub loss_window: usize,
    /// Average round-trip time in milliseconds.
    pub avg_rtt_ms: u64,
    pub is_degraded: bool,
}

/// Ping bookkeeping of a circuit.
#[derive(Debug)]
pub struct PingTracker {
    outstanding_pings: Vec<(u8, Instant)>,
    last_rtt_ms: Option<u64>,
    next_ping_id: u8,
    ping_count: u32,
    blocked_pings: u32,
    rtt_history: Vec<u64>,
    packet_loss_window: Vec<bool>,
    avg_rtt_ms: u64,
}

fn count_losses(w: &Vec<bool>) -> (n: usize)
    ensures
        n == losses(w@),
        n <= w.len(),
{
    let mut n: usize = 0;
    let mut i: usize = 0;
    while i < w.len()
        invariant
            i <= w.len(),
            n == losses(w@.take(i as int)),
            n <= i,
        decreases w.len() - i,
    {
        assert(w@.take(i + 1).drop_last() =~= w@.take(i as int));
        if !w[i] {
            n = n + 1;
        }
        i = i + 1;
    }
    assert(w@.take(w.len() as int) =~= w@);
    n
}

proof fn lemma_sum_bound(s: Seq<u64>)
    ensures
        0 <= sum_ms(s) <= s.len() * (u64::MAX as int),
    decreases s.len(),
{
    if s.len() > 0 {
        lemma_sum_bound(s.drop_last());
    }
}

fn average_of(h: &Vec<u64>) -> (avg: u64)
    requires
        h.len() > 0,
    ensures
        avg == average_ms(h@),
{
    let mut total: u128 = 0;
    let mut i: usize = 0;
    while i < h.len()
        invariant
            i <= h.len(),
            h.len() <= usize::MAX,
            total == sum_ms(h@.take(i as int)),
            total <= i * (u64::MAX as int),
        decreases h.len() - i,
    {
        assert(h@.take(i + 1).drop_last() =~= h@.take(i as int));
        assert(total + h[i as int] <= (i + 1) * (u64::MAX as int)) by (nonlinear_arith)
            requires
                total <= i * (u64::MAX as int),
                h[i as int] <= u64::MAX,
        ;
        assert((i + 1) * (u64::MAX as int) < u128::MAX) by (nonlinear_arith)
            requires
                i < h.len(),
                h.len() <= usize::MAX,
                usize::MAX <= u64::MAX,
        ;
        total = total + h[i] as u128;
        i = i + 1;
    }
    assert(h@.take(h.len() as int) =~= h@);
    let n = h.len() as u128;
    assert(total / n <= u64::MAX) by (nonlinear_arith)
        requires
            total <= n * (u64::MAX as int),
            n > 0,
    ;
    (total / n) as u64
}

fn bounded_push_u64(w: &mut Vec<u64>, x: u64, cap: usize)
    requires
        cap > 0,
        old(w).len() <= cap,
    ensures
        final(w)@ == bounded_push(old(w)@, x, cap as nat),
        final(w).len() <= cap,
{
    w.push(x);
    if w.len() > cap {
        let _oldest = w.remove(0);
        assert(final(w)@ =~= old(w)@.push(x).drop_first());
    }
}

fn bounded_push_bool(w: &mut Vec<bool>, x: bool, cap: usize)
    requires
        cap > 0,
        old(w).len() <= cap,
    ensures
        final(w)@ == bounded_push(old(w)@, x, cap as nat),
        final(w).len() <= cap,
{
    w.push(x);
    if w.len() > cap {
        let _oldest = w.remove(0);
        assert(final(w)@ =~= old(w)@.push(x).drop_first());
    }
}

impl PingTracker {
    /// The numbers of the pings waiting for a reply.
    pub closed spec fn outstanding(&self) -> Seq<u8> {
        ping_ids(self.outstanding_pings@)
    }

    /// The number the next ping gets.
    pub closed spec fn next_id(&self) -> u8 {
        self.next_ping_id
    }

    /// The round-trip time of the last reply, in milliseconds.
    pub closed spec fn last_rtt(&self) -> Option<u64> {
        self.last_rtt_ms
    }

    /// How many pings were sent.
    pub closed spec fn sent(&self) -> u32 {
        self.ping_count
    }

    /// How many pings went without a reply.
    pub closed spec fn timed_out(&self) -> u32 {
        self.blocked_pings
    }

    /// The last round-trip times, oldest first.
    pub closed spec fn rtts(&self) -> Seq<u64> {
        self.rtt_history@
    }

    /// The outcomes of the last pings, oldest first (`true` for a reply).
    pub closed spec fn outcomes(&self) -> Seq<bool> {
        self.packet_loss_window@
    }

    /// The average round-trip time kept.
    pub closed spec fn avg_rtt(&self) -> u64 {
        self.avg_rtt_ms
    }

    /// No ping number outstanding twice and 0 never next, the histories
    /// within their lengths, and the average that of the round-trip times.
    pub closed spec fn wf(&self) -> bool {
        &&& distinct_ids(ping_ids(self.outstanding_pings@))
        &&& self.next_ping_id != 0
        &&& self.rtt_history@.len() <= RTT_HISTORY_LEN
        &&& self.packet_loss_window@.len() <= LOSS_WINDOW_LEN
        &&& self.avg_rtt_ms == average_ms(self.rtt_history@)
    }

    /// No ping sent yet; the next one is number 1.
    pub fn new() -> (t: Self)
        ensures
            t.wf(),
            t.outstanding() == Seq::<u8>::empty(),
            t.next_id() == 1,
            t.last_rtt() is None,
            t.sent() == 0,
            t.timed_out() == 0,
            t.rtts() == Seq::<u64>::empty(),
            t.outcomes() == Seq::<bool>::empty(),
            t.avg_rtt() == DEFAULT_AVG_RTT_MS,
    {
        let t = PingTracker {
            outstanding_pings: Vec::new(),
            last_rtt_ms: None,
            next_ping_id: 1,
            ping_count: 0,
            blocked_pings: 0,
            rtt_history: Vec::new(),
            packet_loss_window: Vec::new(),
            avg_rtt_ms: DEFAULT_AVG_RTT_MS,
        };
        assert(ping_ids(t.outstanding_pings@) =~= Seq::<u8>::empty());
        t
    }

    /// Records the outcome of a ping: a reply after `rtt_ms`, or a loss.
    fn update_quality_metrics(&mut self, rtt_ms: u64, success: bool)
        requires
            old(self).wf(),
        ensures
            final(self).wf(),
            final(self).rtts() == bounded_push(old(self).rtts(), rtt_ms, RTT_HISTORY_LEN as nat),
            final(self).outcomes() == bounded_push(old(self).outcomes(), success, LOSS_WINDOW_LEN as nat),
            final(self).outstanding_pings == old(self).outstanding_pings,
            final(self).last_rtt() == old(self).last_rtt(),
            final(self).next_id() == old(self).next_id(),
            final(self).sent() == old(self).sent(),
            final(self).timed_out() == old(self).timed_out(),
    {
        bounded_push_u64(&mut self.rtt_history, rtt_ms, RTT_HISTORY_LEN);
        bounded_push_bool(&mut self.packet_loss_window, success, LOSS_WINDOW_LEN);
        self.avg_rtt_ms = average_of(&self.rtt_history);
    }

    /// Index of the outstanding ping numbered `id`, if any.
    fn find_ping(&self, id: u8) -> (r: Option<usize>)
        ensures
            r matches Some(i) ==> i < self.outstanding_pings@.len() && self.outstanding_pings@[i as int].0 == id,
            r is None ==> !ping_ids(self.outstanding_pings@).contains(id),
    {
        let mut i: usize = 0;
        while i < self.outstanding_pings.len()
            invariant
                i <= self.outstanding_pings.len(),
                forall|k: int| 0 <= k < i ==> self.outstanding_pings@[k].0 != id,
            decreases self.outstanding_pings.len() - i,
        {
            if self.outstanding_pings[i].0 == id {
                return Some(i);
            }
            i = i + 1;
        }
        proof {
            if ping_ids(self.outstanding_pings@).contains(id) {
                let k = choose|k: int| 0 <= k < ping_ids(self.outstanding_pings@).len() && ping_ids(self.outstanding_pings@)[k] == id;
                assert(self.outstanding_pings@[k].0 == id);
            }
        }
        None
    }

    /// Sends a ping, as far as the bookkeeping goes: returns its number, which
    /// is then outstanding (sent now), and moves on to the next number.
    pub fn start_ping(&mut self) -> (id: u8)
        requires
            old(self).wf(),
            old(self).sent() < u32::MAX,
        ensures
            final(self).wf(),
            id == old(self).next_id(),
            id != 0,
            final(self).next_id() == next_ping_id_after(old(self).next_id()),
            forall|k: u8| #[trigger] final(self).outstanding().contains(k) <==> (old(self).outstanding().contains(k) || k == id),
            final(self).sent() == old(self).sent() + 1,
            final(self).timed_out() == old(self).timed_out(),
            final(self).last_rtt() == old(self).last_rtt(),
            final(self).rtts() == old(self).rtts(),
            final(self).outcomes() == old(self).outcomes(),
            final(self).avg_rtt() == old(self).avg_rtt(),
    {
        let id = self.next_ping_id;
        self.next_ping_id = self.next_ping_id.wrapping_add(1);
        if self.next_ping_id == 0 {
            self.next_ping_id = 1;
        }
        assert(self.next_ping_id == next_ping_id_after(id)) by {
            if id == 255 {
                assert(255u8.wrapping_add(1) == 0);
            }
        }
        let ghost before = self.outstanding_pings@;
        if let Some(i) = self.find_ping(id) {
            let _earlier = self.outstanding_pings.remove(i);
            proof {
                lemma_remove_ping(before, i as int);
            }
        }
        let ghost mid = self.outstanding_pings@;
        let sent_at = instant_now();
        self.outstanding_pings.push((id, sent_at));
        self.ping_count = self.ping_count + 1;
        proof {
            let f = self.outstanding_pings@;
            assert(ping_ids(f) =~= ping_ids(mid).push(id));
            assert(!ping_ids(mid).contains(id));
            lemma_push_ids(mid, (id, sent_at));
        }
        id
    }

    /// Takes in the reply to ping `ping_id`. For an outstanding ping, returns
    /// the round-trip time in milliseconds, which becomes the last one and
    /// joins the history as a reply; the ping is no longer outstanding. For
    /// any other number, returns `None` and changes nothing.
    pub fn complete_ping(&mut self, ping_id: u8) -> (r: Option<u64>)
        requires
            old(self).wf(),
        ensures
            final(self).wf(),
            r is Some <==> old(self).outstanding().contains(ping_id),
            r matches Some(rtt) ==> {
                &&& forall|k: u8| #[trigger] final(self).outstanding().contains(k) <==> (old(self).outstanding().contains(k) && k != ping_id)
                &&& final(self).last_rtt() == Some(rtt)
                &&& final(self).rtts() == bounded_push(old(self).rtts(), rtt, RTT_HISTORY_LEN as nat)
                &&& final(self).outcomes() == bounded_push(old(self).outcomes(), true, LOSS_WINDOW_LEN as nat)
            },
            r is None ==> {
                &&& final(self).outstanding() == old(self).outstanding()
                &&& final(self).last_rtt() == old(self).last_rtt()
                &&& final(self).rtts() == old(self).rtts()
                &&& final(self).outcomes() == old(self).outcomes()
            },
            final(self).next_id() == old(self).next_id(),
            final(self).sent() == old(self).sent(),
            final(self).timed_out() == old(self).timed_out(),
    {
        match self.find_ping(ping_id) {
            None => None,
            Some(i) => {
                let ghost before = self.outstanding_pings@;
                let (_id, sent_at) = self.outstanding_pings.remove(i);
                proof {
                    lemma_remove_ping(before, i as int);
                    assert(ping_ids(before)[i as int] == ping_id);
                }
                let elapsed = instant_elapsed(&sent_at);
                let rtt: u64 = #[verifier::truncate] (duration_as_millis(&elapsed) as u64);
                self.last_rtt_ms = Some(rtt);
                self.update_quality_metrics(rtt, true);
                Some(rtt)
            },
        }
    }

    /// Whether more than `max_outstanding` pings wait for a reply.
    pub fn is_blocked(&self, max_outstanding: usize) -> (b: bool)
        ensures
            b == (self.outstanding().len() > max_outstanding),
    {
        self.outstanding_pings.len() > max_outstanding
    }

    /// The health as the last pings show it.
    pub fn get_connection_health(&self) -> (h: ConnectionHealth)
        requires
            self.wf(),
        ensures
            h.loss_failures == losses(self.outcomes()),
            h.loss_window == self.outcomes().len(),
            h.avg_rtt_ms == self.avg_rtt(),
            h.is_degraded == degraded_spec(h.loss_failures as nat, h.loss_window as nat, h.avg_rtt_ms as int),
    {
        let failures = count_losses(&self.packet_loss_window);
        let window = self.packet_loss_window.len();
        ConnectionHealth {
            loss_failures: failures,
            loss_window: window,
            avg_rtt_ms: self.avg_rtt_ms,
            is_degraded: failures * 20 > window || self.avg_rtt_ms > DEGRADED_RTT_MS,
        }
    }

    /// The last round-trip time, the pings sent, the pings that went without
    /// reply, and the pings outstanding.
    pub fn get_ping_stats(&self) -> (s: (Option<u64>, u32, u32, usize))
        ensures
            s == (self.last_rtt(), self.sent(), self.timed_out(), self.outstanding().len() as usize),
    {
        (self.last_rtt_ms, self.ping_count, self.blocked_pings, self.outstanding_pings.len())
    }

    /// Gives up on the pings outstanding for longer than `timeout_ms`: each
    /// counts as lost, with the timeout as its round-trip time, and as timed
    /// out. Returns how many there were.
    pub fn cleanup_old_pings(&mut self, timeout_ms: u64) -> (n: usize)
        requires
            old(self).wf(),
            old(self).timed_out() + old(self).outstanding().len() <= u32::MAX,
        ensures
            final(self).wf(),
            n + final(self).outstanding().len() == old(self).outstanding().len(),
            forall|k: u8| #[trigger] final(self).outstanding().contains(k) ==> old(self).outstanding().contains(k),
            final(self).rtts() == bounded_push_n(old(self).rtts(), timeout_ms, n as nat, RTT_HISTORY_LEN as nat),
            final(self).outcomes() == bounded_push_n(old(self).outcomes(), false, n as nat, LOSS_WINDOW_LEN as nat),
            final(self).timed_out() == old(self).timed_out() + n,
            final(self).next_id() == old(self).next_id(),
            final(self).sent() == old(self).sent(),
            final(self).last_rtt() == old(self).last_rtt(),
    {
        let timeout = duration_from_millis(timeout_ms);
        let ghost start = self.outstanding_pings@;
        let mut timed_out: usize = 0;
        let mut i: usize = 0;
        while i < self.outstanding_pings.len()
            invariant
                self.wf(),
                i <= self.outstanding_pings.len(),
                timed_out + self.outstanding_pings@.len() == start.len(),
                forall|k: u8| #[trigger] ping_ids(self.outstanding_pings@).contains(k) ==> ping_ids(start).contains(k),
                self.rtts() == old(self).rtts(),
                self.outcomes() == old(self).outcomes(),
                self.blocked_pings == old(self).blocked_pings,
                self.next_ping_id == old(self).next_ping_id,
                self.ping_count == old(self).ping_count,
                self.last_rtt_ms == old(self).last_rtt_ms,
                start == old(self).outstanding_pings@,
                start.len() <= usize::MAX,
            decreases self.outstanding_pings.len() - i,
        {
            let age = instant_elapsed(&self.outstanding_pings[i].1);
            if duration_longer(&age, &timeout) {
                let ghost before = self.outstanding_pings@;
                let _gone = self.outstanding_pings.remove(i);
                proof {
                    lemma_remove_ping(before, i as int);
                }
                timed_out = timed_out + 1;
            } else {
                i = i + 1;
            }
        }
        let mut j: usize = 0;
        while j < timed_out
            invariant
                self.wf(),
                j <= timed_out,
                self.rtts() == bounded_push_n(old(self).rtts(), timeout_ms, j as nat, RTT_HISTORY_LEN as nat),
                self.outcomes() == bounded_push_n(old(self).outcomes(), false, j as nat, LOSS_WINDOW_LEN as nat),
                self.outstanding_pings@.len() + timed_out == start.len(),
                forall|k: u8| #[trigger] ping_ids(self.outstanding_pings@).contains(k) ==> ping_ids(start).contains(k),
                self.blocked_pings == old(self).blocked_pings,
                self.next_ping_id == old(self).next_ping_id,
                self.ping_count == old(self).ping_count,
                self.last_rtt_ms == old(self).last_rtt_ms,
                start == old(self).outstanding_pings@,
            decreases timed_out - j,
        {
            self.update_quality_metrics(timeout_ms, false);
            j = j + 1;
        }
        self.blocked_pings = self.blocked_pings + timed_out as u32;
        timed_out
    }
}

/// Removing an entry removes its number and keeps the others.
proof fn lemma_remove_ping(es: Seq<(u8, Instant)>, i: int)
    requires
        0 <= i < es.len(),
        distinct_ids(ping_ids(es)),
    ensures
        ping_ids(es.remove(i)) == ping_ids(es).remove(i),
        distinct_ids(ping_ids(es.remove(i))),
        !ping_ids(es.remove(i)).contains(es[i].0),
        forall|k: u8| #[trigger] ping_ids(es.remove(i)).contains(k) <==> (ping_ids(es).contains(k) && k != es[i].0),
{
    let ks = ping_ids(es);
    assert(ping_ids(es.remove(i)) =~= ks.remove(i));
    let r = ks.remove(i);
    assert forall|a: int, b: int| 0 <= a < b < r.len() implies r[a] != r[b] by {
        let aa = if a < i { a } else { a + 1 };
        let bb = if b < i { b } else { b + 1 };
        assert(r[a] == ks[aa] && r[b] == ks[bb]);
    }
    if r.contains(es[i].0) {
        let a = choose|a: int| 0 <= a < r.len() && r[a] == es[i].0;
        let aa = if a < i { a } else { a + 1 };
        assert(ks[aa] == ks[i]);
    }
    assert forall|k: u8| #[trigger] r.contains(k) <==> (ks.contains(k) && k != es[i].0) by {
        if ks.contains(k) && k != es[i].0 {
            let a = choose|a: int| 0 <= a < ks.len() && ks[a] == k;
            assert(a != i);
            let ra = if a < i { a } else { a - 1 };
            assert(r[ra] == k);
        }
        if r.contains(k) {
            let a = choose|a: int| 0 <= a < r.len() && r[a] == k;
            let aa = if a < i { a } else { a + 1 };
            assert(ks[aa] == k);
        }
    }
}

/// Appending an entry with a new number keeps the numbers distinct and adds
/// that number.
proof fn lemma_push_ids(es: Seq<(u8, Instant)>, e: (u8, Instant))
    requires
        distinct_ids(ping_ids(es)),
        !ping_ids(es).contains(e.0),
    ensures
        distinct_ids(ping_ids(es.push(e))),
        forall|k: u8| #[trigger] ping_ids(es.push(e)).contains(k) <==> (ping_ids(es).contains(k) || k == e.0),
{
    let ks = ping_ids(es);
    let f = ping_ids(es.push(e));
    assert(f =~= ks.push(e.0));
    assert forall|a: int, b: int| 0 <= a < b < f.len() implies f[a] != f[b] by {
        if b == ks.len() {
            assert(f[a] == ks[a]);
        } else {
            assert(f[a] == ks[a] && f[b] == ks[b]);
        }
    }
    assert forall|k: u8| #[trigger] f.contains(k) <==> (ks.contains(k) || k == e.0) by {
        if f.contains(k) {
            let a = choose|a: int| 0 <= a < f.len() && f[a] == k;
            if a < ks.len() {
                assert(ks[a] == k);
            }
        }
        if ks.contains(k) {
            let a = choose|a: int| 0 <= a < ks.len() && ks[a] == k;
            assert(f[a] == k);
        }
        if k == e.0 {
            assert(f[ks.len() as int] == k);
        }
    }
}

} // verus!
