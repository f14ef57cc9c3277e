//! The registry of packet handlers: handlers for one message number and
//! global handlers, each list kept from higher to lower priority with
//! handlers of equal priority in the order they were registered. Running the
//! handlers is left to the caller, which the registry tells in which order.

use vstd::prelude::*;
use crate::status::HandlerStats;

verus! {

/// Where a handler of priority `p` goes in a list: before the first handler
/// of lower priority, or at the end. On a list kept from higher to lower
/// priority this is where appending and then sorting stably by descending
/// priority puts it.
pub open spec fn prio_pos<H>(l: Seq<(H, i32)>, p: i32) -> int
    decreases l.len(),
{
    if l.len() == 0 {
        0
    } else if prio_pos(l.drop_last(), p) < l.len() - 1 {
        prio_pos(l.drop_last(), p)
    } else if l.last().1 < p {
        l.len() - 1
    } else {
        l.len() as int
    }
}

/// Whether a list runs from higher to lower priority.
pub open spec fn by_priority<H>(l: Seq<(H, i32)>) -> bool {
    forall|i: int, j: int| 0 <= i < j < l.len() ==> l[i].1 >= l[j].1
}

/// The registered handlers of packet `id`, if any were registered.
pub open spec fn list_for<H>(es: Seq<(u16, Vec<(H, i32)>)>, id: u16) -> Seq<(H, i32)>
    decreases es.len(),
{
    if es.len() == 0 {
        Seq::empty()
    } else if es.last().0 == id {
        es.last().1@
    } else {
        list_for(es.drop_last(), id)
    }
}

/// The number of handlers over all packets.
pub open spec fn total_handlers<H>(es: Seq<(u16, Vec<(H, i32)>)>) -> nat
    decreases es.len(),
{
    if es.len() == 0 {
        0
    } else {
        total_handlers(es.drop_last()) + es.last().1@.len()
    }
}

/// The handler registry.
#[derive(Debug)]
pub struct HandlerRegistry<H> {
    handlers: Vec<(u16, Vec<(H, i32)>)>,
    global_handlers: Vec<(H, i32)>,
}

/// Inserts `(h, p)` where `prio_pos` says.
fn insert_by_priority<H>(l: &mut Vec<(H, i32)>, h: H, p: i32)
    requires
        by_priority(old(l)@),
    ensures
        final(l)@ == old(l)@.insert(prio_pos(old(l)@, p), (h, p)),
        by_priority(final(l)@),
{
    let mut pos: usize = l.len();
    let mut i: usize = 0;
    while i < l.len()
        invariant
            i <= l.len(),
            pos == (if prio_pos(l@.take(i as int), p) < i {
                prio_pos(l@.take(i as int), p)
            } else {
                l.len() as int
            }),
            prio_pos(l@.take(i as int), p) <= i,
        decreases l.len() - i,
    {
        proof {
            assert(l@.take(i + 1).drop_last() =~= l@.take(i as int));
            assert(l@.take(i + 1).last() == l@[i as int]);
        }
        if pos == l.len() && l[i].1 < p {
            pos = i;
        }
        i = i + 1;
    }
    assert(l@.take(l.len() as int) =~= l@);
    proof {
        lemma_insert_keeps_order(l@, h, p);
    }
    l.insert(pos, (h, p));
}

/// Where `prio_pos` puts priority `p`: after every entry of that priority
/// or higher before the first one of lower priority.
pub proof fn lemma_prio_pos<H>(l: Seq<(H, i32)>, p: i32)
    ensures
        0 <= prio_pos(l, p) <= l.len(),
        forall|i: int| 0 <= i < prio_pos(l, p) ==> #[trigger] l[i].1 >= p,
        prio_pos(l, p) < l.len() ==> l[prio_pos(l, p)].1 < p,
    decreases l.len(),
{
    if l.len() > 0 {
        lemma_prio_pos(l.drop_last(), p);
        assert forall|i: int| 0 <= i < l.len() - 1 implies #[trigger] l[i] == l.drop_last()[i] by {}
    }
}

/// Handlers run by priority: a list that runs from higher to lower priority
/// still does after a handler is registered, which goes behind every handler
/// of its priority or higher and ahead of every one of lower priority.
pub proof fn lemma_insert_keeps_order<H>(l: Seq<(H, i32)>, h: H, p: i32)
    requires
        by_priority(l),
    ensures
        by_priority(l.insert(prio_pos(l, p), (h, p))),
        forall|i: int| 0 <= i < prio_pos(l, p) ==> #[trigger] l[i].1 >= p,
        forall|i: int| prio_pos(l, p) <= i < l.len() ==> #[trigger] l[i].1 < p,
{
    lemma_prio_pos(l, p);
    let k = prio_pos(l, p);
    assert forall|i: int| k <= i < l.len() implies #[trigger] l[i].1 < p by {
        if i > k {
            assert(l[k].1 >= l[i].1);
        }
    }
    let r = l.insert(k, (h, p));
    assert forall|i: int, j: int| 0 <= i < j < r.len() implies r[i].1 >= r[j].1 by {
        if j < k {
            assert(r[i] == l[i] && r[j] == l[j]);
        } else if j == k {
            assert(r[i] == l[i]);
        } else if i < k {
            assert(r[i] == l[i] && r[j] == l[j - 1]);
        } else if i == k {
            assert(r[j] == l[j - 1]);
        } else {
            assert(r[i] == l[i - 1] && r[j] == l[j - 1]);
        }
    }
}

impl<H> HandlerRegistry<H> {
    /// The handlers by packet number, in the order the numbers were first
    /// registered.
    pub closed spec fn packets(&self) -> Seq<(u16, Vec<(H, i32)>)> {
        self.handlers@
    }

    /// The global handlers with their priorities.
    pub closed spec fn globals(&self) -> Seq<(H, i32)> {
        self.global_handlers@
    }

    /// Each packet number appears once with at least one handler, and every
    /// list runs from higher to lower priority.
    pub closed spec fn wf(&self) -> bool {
        &&& forall|i: int, j: int|
            0 <= i < j < self.handlers@.len() ==> self.handlers@[i].0 != self.handlers@[j].0
        &&& forall|i: int| 0 <= i < self.handlers@.len() ==> by_priority(#[trigger] self.handlers@[i].1@)
        &&& forall|i: int| 0 <= i < self.handlers@.len() ==> (#[trigger] self.handlers@[i].1@).len() > 0
        &&& by_priority(self.global_handlers@)
    }

    /// No handlers.
    pub fn new() -> (r: Self)
        ensures
            r.wf(),
            r.packets() == Seq::<(u16, Vec<(H, i32)>)>::empty(),
            r.globals() == Seq::<(H, i32)>::empty(),
    {
        HandlerRegistry { handlers: Vec::new(), global_handlers: Vec::new() }
    }

    fn index_of(&self, packet_id: u16) -> (r: Option<usize>)
        ensures
            match r {
                Some(i) => i < self.handlers@.len() && self.handlers@[i as int].0 == packet_id,
                None => forall|k: int| 0 <= k < self.handlers@.len() ==> self.handlers@[k].0 != packet_id,
            },
    {
        let mut i: usize = 0;
        while i < self.handlers.len()
            invariant
                i <= self.handlers.len(),
                forall|k: int| 0 <= k < i ==> self.handlers@[k].0 != packet_id,
            decreases self.handlers.len() - i,
        {
            if self.handlers[i].0 == packet_id {
                return Some(i);
            }
            i = i + 1;
        }
        None
    }

    /// Registers `handler` of priority `priority` for packet `packet_id`,
    /// behind the handlers of that packet with the same or higher priority.
    pub fn register_handler(&mut self, packet_id: u16, handler: H, priority: i32)
        requires
            old(self).wf(),
        ensures
            final(self).wf(),
            list_for(final(self).packets(), packet_id) == list_for(old(self).packets(), packet_id).insert(
                prio_pos(list_for(old(self).packets(), packet_id), priority),
                (handler, priority),
            ),
            forall|other: u16|
                other != packet_id ==> #[trigger] list_for(final(self).packets(), other) == list_for(
                    old(self).packets(),
                    other,
                ),
            final(self).globals() == old(self).globals(),
    {
        let ghost before = self.handlers@;
        match self.index_of(packet_id) {
            Some(i) => {
                let (id, mut list) = self.handlers.remove(i);
                proof {
                    lemma_list_for_at(before, i as int);
                }
                insert_by_priority(&mut list, handler, priority);
                self.handlers.insert(i, (id, list));
                proof {
                    let after = self.handlers@;
                    assert(after =~= before.update(i as int, (id, list)));
                    lemma_list_for_update(before, i as int, list);
                    assert forall|a: int, b: int| 0 <= a < b < after.len() implies after[a].0 != after[b].0 by {
                        assert(after[a].0 == before[a].0 && after[b].0 == before[b].0);
                    }
                    assert forall|k: int| 0 <= k < after.len() implies by_priority(#[trigger] after[k].1@) && after[k].1@.len() > 0 by {
                        if k != i {
                            assert(after[k] == before[k]);
                        }
                    }
                }
            },
            None => {
                let mut list: Vec<(H, i32)> = Vec::new();
                proof {
                    lemma_list_for_absent(before, packet_id);
                }
                insert_by_priority(&mut list, handler, priority);
                self.handlers.push((packet_id, list));
                proof {
                    let after = self.handlers@;
                    assert(after.drop_last() =~= before);
                    assert forall|a: int, b: int| 0 <= a < b < after.len() implies after[a].0 != after[b].0 by {
                        if b == after.len() - 1 {
                            assert(after[a] == before[a]);
                        } else {
                            assert(after[a] == before[a] && after[b] == before[b]);
                        }
                    }
                    assert forall|k: int| 0 <= k < after.len() implies by_priority(#[trigger] after[k].1@) && after[k].1@.len() > 0 by {
                        if k < before.len() {
                            assert(after[k] == before[k]);
                        }
                    }
                    assert forall|other: u16| other != packet_id implies #[trigger] list_for(after, other) == list_for(before, other) by {
                    }
                }
            },
        }
    }

    /// Registers a handler for every packet, behind the global handlers of
    /// the same or higher priority.
    pub fn register_global_handler(&mut self, handler: H, priority: i32)
        requires
            old(self).wf(),
        ensures
            final(self).wf(),
            final(self).globals() == old(self).globals().insert(prio_pos(old(self).globals(), priority), (handler, priority)),
            final(self).packets() == old(self).packets(),
    {
        insert_by_priority(&mut self.global_handlers, handler, priority);
    }

    /// The handlers a packet with number `packet_id` goes through, in order:
    /// the global handlers, then those of that number.
    pub fn dispatch_order(&self, packet_id: u16) -> (r: Vec<&H>)
        requires
            self.wf(),
        ensures
            r@.len() == self.globals().len() + list_for(self.packets(), packet_id).len(),
            forall|i: int| 0 <= i < self.globals().len() ==> *(#[trigger] r@[i]) == self.globals()[i].0,
            forall|i: int|
                0 <= i < list_for(self.packets(), packet_id).len() ==> *(#[trigger] r@[self.globals().len() + i])
                    == list_for(self.packets(), packet_id)[i].0,
    {
        let mut r: Vec<&H> = Vec::new();
        let mut i: usize = 0;
        while i < self.global_handlers.len()
            invariant
                i <= self.global_handlers.len(),
                r@.len() == i,
                forall|k: int| 0 <= k < i ==> *(#[trigger] r@[k]) == self.global_handlers@[k].0,
            decreases self.global_handlers.len() - i,
        {
            r.push(&self.global_handlers[i].0);
            i = i + 1;
        }
        let g = self.global_handlers.len();
        match self.index_of(packet_id) {
            Some(k) => {
                proof {
                    lemma_list_for_at(self.handlers@, k as int);
                }
                let list = &self.handlers[k].1;
                let mut j: usize = 0;
                while j < list.len()
                    invariant
                        j <= list.len(),
                        g == self.global_handlers@.len(),
                        r@.len() == g + j,
                        forall|m: int| 0 <= m < g ==> *(#[trigger] r@[m]) == self.global_handlers@[m].0,
                        forall|m: int| 0 <= m < j ==> *(#[trigger] r@[g + m]) == list@[m].0,
                    decreases list.len() - j,
                {
                    r.push(&list[j].0);
                    j = j + 1;
                }
            },
            None => {
                proof {
                    lemma_list_for_absent(self.handlers@, packet_id);
                }
            },
        }
        r
    }

    /// How many packet numbers have handlers, how many handlers they have
    /// in all, and how many global handlers there are.
    pub fn get_stats(&self) -> (s: HandlerStats)
        requires
            total_handlers(self.packets()) <= usize::MAX,
        ensures
            s.packet_types == self.packets().len(),
            s.packet_handlers == total_handlers(self.packets()),
            s.global_handlers == self.globals().len(),
    {
        let mut total: usize = 0;
        let mut i: usize = 0;
        while i < self.handlers.len()
            invariant
                i <= self.handlers.len(),
                total == total_handlers(self.handlers@.take(i as int)),
                total_handlers(self.handlers@) <= usize::MAX,
            decreases self.handlers.len() - i,
        {
            proof {
                assert(self.handlers@.take(i + 1).drop_last() =~= self.handlers@.take(i as int));
                lemma_total_prefix(self.handlers@, i as int + 1);
            }
            total = total + self.handlers[i].1.len();
            i = i + 1;
        }
        assert(self.handlers@.take(self.handlers.len() as int) =~= self.handlers@);
        HandlerStats {
            packet_types: self.handlers.len(),
            packet_handlers: total,
            global_handlers: self.global_handlers.len(),
        }
    }
}

impl<H> Default for HandlerRegistry<H> {
    fn default() -> (r: Self)
        ensures
            r.wf(),
            r.packets() == Seq::<(u16, Vec<(H, i32)>)>::empty(),
            r.globals() == Seq::<(H, i32)>::empty(),
    {
        HandlerRegistry::new()
    }
}

/// With distinct packet numbers, the list of the number at `i` is the one at
/// `i`.
proof fn lemma_list_for_at<H>(es: Seq<(u16, Vec<(H, i32)>)>, i: int)
    requires
        0 <= i < es.len(),
        forall|a: int, b: int| 0 <= a < b < es.len() ==> es[a].0 != es[b].0,
    ensures
        list_for(es, es[i].0) == es[i].1@,
    decreases es.len(),
{
    if i < es.len() - 1 {
        assert(es.last() == es[es.len() - 1]);
        lemma_list_for_at(es.drop_last(), i);
        assert(es.drop_last()[i] == es[i]);
    }
}

/// A number with no entry has no handlers.
proof fn lemma_list_for_absent<H>(es: Seq<(u16, Vec<(H, i32)>)>, id: u16)
    requires
        forall|k: int| 0 <= k < es.len() ==> es[k].0 != id,
    ensures
        list_for(es, id) == Seq::<(H, i32)>::empty(),
    decreases es.len(),
{
    if es.len() > 0 {
        assert(es.last() == es[es.len() - 1]);
        lemma_list_for_absent(es.drop_last(), id);
    }
}

/// Replacing the list at `i` changes the handlers of that number only.
proof fn lemma_list_for_update<H>(es: Seq<(u16, Vec<(H, i32)>)>, i: int, l: Vec<(H, i32)>)
    requires
        0 <= i < es.len(),
        forall|a: int, b: int| 0 <= a < b < es.len() ==> es[a].0 != es[b].0,
    ensures
        list_for(es.update(i, (es[i].0, l)), es[i].0) == l@,
        forall|other: u16| other != es[i].0 ==> #[trigger] list_for(es.update(i, (es[i].0, l)), other) == list_for(es, other),
    decreases es.len(),
{
    let u = es.update(i, (es[i].0, l));
    if i == es.len() - 1 {
        assert(u.drop_last() =~= es.drop_last());
        assert(u.last() == (es[i].0, l));
        assert forall|other: u16| other != es[i].0 implies #[trigger] list_for(u, other) == list_for(es, other) by {
            assert(es.last() == es[i]);
        }
    } else {
        assert(u.drop_last() =~= es.drop_last().update(i, (es[i].0, l)));
        assert(es.drop_last()[i] == es[i]);
        lemma_list_for_update(es.drop_last(), i, l);
        assert(u.last() == es.last());
        assert(es.last() == es[es.len() - 1]);
        assert(es.last().0 != es[i].0);
        assert forall|other: u16| other != es[i].0 implies #[trigger] list_for(u, other) == list_for(es, other) by {
            if es.last().0 != other {
                assert(list_for(u.drop_last(), other) == list_for(es.drop_last(), other));
            }
        }
    }
}

proof fn lemma_total_prefix<H>(es: Seq<(u16, Vec<(H, i32)>)>, n: int)
    requires
        0 <= n <= es.len(),
    ensures
        total_handlers(es.take(n)) <= total_handlers(es),
    decreases es.len() - n,
{
    if n < es.len() {
        lemma_total_prefix(es, n + 1);
        assert(es.take(n + 1).drop_last() =~= es.take(n));
    } else {
        assert(es.take(n) =~= es);
    }
}

} // verus!
