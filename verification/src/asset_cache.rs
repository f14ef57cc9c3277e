//! A size-bounded cache of downloaded assets that evicts the least recently
//! used ones first. Recency is kept as a logical clock that ticks at every
//! access; the wall-clock time of the last access is kept too, for the
//! periodic removal of stale, rarely used assets.

use vstd::prelude::*;
use std::time::{Duration, Instant};
use crate::assets::AssetType;
use crate::bytes_util::{copy_bytes, ids_equal};
use crate::time_util::{instant_elapsed, instant_now, duration_longer};

verus! {


/// A cached asset.
#[derive(Debug)]
pub struct CacheEntry {
    pub asset_id: [u8; 16],
    pub asset_type: AssetType,
    pub data: Vec<u8>,
    pub size: usize,
    /// Logical time of the last access.
    pub last_access_tick: u64,
    /// Wall-clock time of the last access.
    pub last_accessed: Instant,
    pub access_count: u64,
}

/// Counters of the cache.
#[derive(Debug, Clone, Copy, PartialEq, Eq)]
pub struct CacheStats {
    pub hits: u64,
    pub misses: u64,
    pub evictions: u64,
    pub total_requests: u64,
    pub total_bytes_cached: u64,
    pub cache_entries: usize,
}

impl Default for CacheStats {
    fn default() -> (s: Self)
        ensures
            s == (CacheStats {
                hits: 0,
                misses: 0,
                evictions: 0,
                total_requests: 0,
                total_bytes_cached: 0,
                cache_entries: 0,
            }),
    {
        CacheStats {
            hits: 0,
            misses: 0,
            evictions: 0,
            total_requests: 0,
            total_bytes_cached: 0,
            cache_entries: 0,
        }
    }
}

/// The assets cached, each with its size.
#[derive(Debug)]
pub struct AssetCache {
    entries: Vec<CacheEntry>,
    max_size: usize,
    current_size: usize,
    clock: u64,
    stats: CacheStats,
}

/// The total size of the entries.
pub open spec fn sum_sizes(es: Seq<CacheEntry>) -> nat
    decreases es.len(),
{
    if es.len() == 0 {
        0
    } else {
        sum_sizes(es.drop_last()) + es.last().size as nat
    }
}

/// The identifiers of the entries, in order.
pub open spec fn entry_ids(es: Seq<CacheEntry>) -> Seq<[u8; 16]> {
    es.map_values(|e: CacheEntry| e.asset_id)
}

/// Whether an identifier is cached.
pub open spec fn holds(es: Seq<CacheEntry>, id: [u8; 16]) -> bool {
    exists|i: int| 0 <= i < es.len() && es[i].asset_id == id
}

/// The entry for an identifier, if cached.
pub open spec fn find_entry(es: Seq<CacheEntry>, id: [u8; 16]) -> Option<CacheEntry> {
    if holds(es, id) {
        Some(es[choose|i: int| 0 <= i < es.len() && es[i].asset_id == id])
    } else {
        None
    }
}

/// Whether `kept` is `es` with some entries taken out, the others in order.
pub open spec fn is_pruned(es: Seq<CacheEntry>, kept: Seq<CacheEntry>) -> bool {
    exists|idx: Seq<int>|
        idx.len() == kept.len() && (forall|a: int, b: int| 0 <= a < b < idx.len() ==> idx[a] < idx[b])
            && (forall|a: int| 0 <= a < idx.len() ==> 0 <= #[trigger] idx[a] < es.len() && es[idx[a]] == kept[a])
}

/// Whether the entries taken out of `before` to leave `after` are exactly
/// those last used no later than tick `t`.
pub open spec fn taken_up_to(before: Seq<CacheEntry>, after: Seq<CacheEntry>, t: u64) -> bool {
    forall|e: CacheEntry|
        #[trigger] before.contains(e) ==> (!after.contains(e) <==> e.last_access_tick <= t)
}

impl AssetCache {
    /// The cached entries.
    pub closed spec fn entries(&self) -> Seq<CacheEntry> {
        self.entries@
    }

    /// The capacity in bytes.
    pub closed spec fn capacity(&self) -> nat {
        self.max_size as nat
    }

    /// The bytes held.
    pub closed spec fn size(&self) -> nat {
        self.current_size as nat
    }

    /// The logical clock: the number of accesses so far.
    pub closed spec fn clock(&self) -> u64 {
        self.clock
    }

    /// The counters.
    pub closed spec fn counters(&self) -> CacheStats {
        self.stats
    }

    /// Each asset is cached once, the size held is the sum of the entries'
    /// sizes, and no counter has run ahead of the clock.
    pub closed spec fn wf(&self) -> bool {
        &&& forall|i: int, j: int|
            0 <= i < j < self.entries@.len() ==> self.entries@[i].asset_id != self.entries@[j].asset_id
        &&& self.current_size == sum_sizes(self.entries@)
        &&& self.stats.total_requests <= self.clock
        &&& self.stats.hits <= self.stats.total_requests
        &&& self.stats.misses <= self.stats.total_requests
        &&& self.stats.evictions + self.entries@.len() <= self.clock
        &&& forall|i: int| 0 <= i < self.entries@.len() ==> #[trigger] self.entries@[i].access_count <= self.clock
        &&& forall|i: int, j: int|
            0 <= i < j < self.entries@.len() ==> self.entries@[i].last_access_tick
                != self.entries@[j].last_access_tick
        &&& forall|i: int| 0 <= i < self.entries@.len() ==> #[trigger] self.entries@[i].last_access_tick <= self.clock
    }

    /// A cache of `max_size_mb` megabytes.
    pub fn new(max_size_mb: usize) -> (c: Self)
        requires
            max_size_mb * 1024 * 1024 <= usize::MAX,
        ensures
            c.wf(),
            c.capacity() == max_size_mb * 1024 * 1024,
            c.entries() == Seq::<CacheEntry>::empty(),
            c.size() == 0,
            c.clock() == 0,
            c.counters() == CacheStats::default_spec(),
    {
        AssetCache {
            entries: Vec::new(),
            max_size: max_size_mb * 1024 * 1024,
            current_size: 0,
            clock: 0,
            stats: CacheStats::default(),
        }
    }

    fn position(&self, asset_id: &[u8; 16]) -> (r: Option<usize>)
        ensures
            r matches Some(i) ==> i < self.entries@.len() && self.entries@[i as int].asset_id == *asset_id,
            r is None ==> !holds(self.entries@, *asset_id),
    {
        let mut i: usize = 0;
        while i < self.entries.len()
            invariant
                i <= self.entries.len(),
                forall|k: int| 0 <= k < i ==> self.entries@[k].asset_id != *asset_id,
            decreases self.entries.len() - i,
        {
            if ids_equal(&self.entries[i].asset_id, asset_id) {
                return Some(i);
            }
            i = i + 1;
        }
        None
    }

    /// Whether the asset is cached.
    pub fn contains(&self, asset_id: &[u8; 16]) -> (b: bool)
        ensures
            b == holds(self.entries(), *asset_id),
    {
        match self.position(asset_id) {
            Some(_) => true,
            None => false,
        }
    }

    /// The bytes held.
    pub fn current_size(&self) -> (n: usize)
        ensures
            n == self.size(),
    {
        self.current_size
    }

    /// The counters, with the current number of entries.
    pub fn stats(&self) -> (s: CacheStats)
        ensures
            s == (CacheStats { cache_entries: self.entries().len() as usize, ..self.counters() }),
    {
        CacheStats { cache_entries: self.entries.len(), ..self.stats }
    }

    /// The cached data of an asset, counting the request as a hit or a miss;
    /// a hit makes the asset the most recently used one.
    pub fn get(&mut self, asset_id: &[u8; 16]) -> (r: Option<Vec<u8>>)
        requires
            old(self).wf(),
            old(self).clock() < u64::MAX,
        ensures
            final(self).wf(),
            holds(old(self).entries(), *asset_id) <==> r is Some,
            r matches Some(d) ==> d@ == find_entry(old(self).entries(), *asset_id).unwrap().data@,
            entry_ids(final(self).entries()) == entry_ids(old(self).entries()),
            forall|i: int| 0 <= i < final(self).entries().len() ==> (#[trigger] final(self).entries()[i]).data == old(self).entries()[i].data,
            final(self).size() == old(self).size(),
            final(self).capacity() == old(self).capacity(),
            final(self).clock() == old(self).clock() + 1,
            final(self).counters().total_requests == old(self).counters().total_requests + 1,
            r is Some ==> final(self).counters().hits == old(self).counters().hits + 1,
            r is None ==> final(self).counters().misses == old(self).counters().misses + 1,
    {
        self.clock = self.clock + 1;
        self.stats.total_requests = self.stats.total_requests + 1;
        match self.position(asset_id) {
            Some(i) => {
                let ghost before = self.entries@;
                let mut e = self.entries.remove(i);
                e.last_access_tick = self.clock;
                e.last_accessed = instant_now();
                e.access_count = e.access_count + 1;
                let data = copy_bytes(e.data.as_slice(), 0, e.data.len());
                self.entries.insert(i, e);
                self.stats.hits = self.stats.hits + 1;
                proof {
                    assert(self.entries@ =~= before.update(i as int, self.entries@[i as int]));
                    assert(data@ =~= before[i as int].data@);
                    lemma_find_entry(before, *asset_id, i as int);
                    lemma_sum_sizes_update(before, i as int, self.entries@[i as int]);
                    assert(entry_ids(self.entries@) =~= entry_ids(before));
                }
                Some(data)
            },
            None => {
                self.stats.misses = self.stats.misses + 1;
                None
            },
        }
    }

    /// Index of the least recently used entry of a non-empty cache.
    fn least_recent(&self) -> (i: usize)
        requires
            self.entries@.len() > 0,
        ensures
            i < self.entries@.len(),
            forall|k: int| 0 <= k < self.entries@.len() ==> self.entries@[i as int].last_access_tick <= #[trigger] self.entries@[k].last_access_tick,
    {
        let mut best: usize = 0;
        let mut k: usize = 1;
        while k < self.entries.len()
            invariant
                1 <= k <= self.entries.len(),
                best < k,
                forall|m: int| 0 <= m < k ==> self.entries@[best as int].last_access_tick <= #[trigger] self.entries@[m].last_access_tick,
            decreases self.entries.len() - k,
        {
            if self.entries[k].last_access_tick < self.entries[best].last_access_tick {
                best = k;
            }
            k = k + 1;
        }
        best
    }

    /// Makes room for `needed_size` more bytes by evicting the least
    /// recently used assets, as few as will do; all are evicted when even
    /// that is not enough.
    pub fn ensure_space(&mut self, needed_size: usize)
        requires
            old(self).wf(),
            old(self).size() + needed_size <= usize::MAX,
        ensures
            final(self).wf(),
            final(self).capacity() == old(self).capacity(),
            final(self).clock() == old(self).clock(),
            is_pruned(old(self).entries(), final(self).entries()),
            old(self).size() + needed_size <= old(self).capacity() ==> final(self).entries() == old(self).entries(),
            final(self).size() + needed_size <= final(self).capacity() || final(self).entries().len() == 0,
            forall|e: CacheEntry, k: CacheEntry|
                old(self).entries().contains(e) && !final(self).entries().contains(e) && final(self).entries().contains(k)
                    ==> e.last_access_tick <= k.last_access_tick,
            final(self).entries().len() < old(self).entries().len() ==> exists|e: CacheEntry|
                #![trigger old(self).entries().contains(e)]
                old(self).entries().contains(e) && !final(self).entries().contains(e) && (forall|x: CacheEntry|
                    old(self).entries().contains(x) && !final(self).entries().contains(x)
                        ==> x.last_access_tick <= e.last_access_tick) && final(self).size() + e.size
                    + needed_size > final(self).capacity(),
            final(self).counters().total_requests == old(self).counters().total_requests,
            final(self).counters().hits == old(self).counters().hits,
            final(self).counters().misses == old(self).counters().misses,
            final(self).counters().total_bytes_cached == old(self).counters().total_bytes_cached,
            final(self).entries().len() < old(self).entries().len() ==> exists|t: u64|
                #[trigger] taken_up_to(old(self).entries(), final(self).entries(), t),
            final(self).counters().evictions == old(self).counters().evictions + (old(self).entries().len()
                - final(self).entries().len()),
            old(self).size() + needed_size <= old(self).capacity() ==> final(self).counters()
                == old(self).counters(),
            old(self).size() + needed_size > old(self).capacity() ==> final(self).counters().cache_entries
                == final(self).entries().len(),
    {
        let ghost start = self.entries@;
        if self.current_size + needed_size <= self.max_size {
            proof {
                lemma_pruned_refl(start);
            }
            return;
        }
        let space_needed = (self.current_size + needed_size) - self.max_size;
        let mut space_freed: usize = 0;
        let ghost mut evicted: Seq<CacheEntry> = Seq::empty();
        proof {
            lemma_pruned_refl(start);
        }
        while space_freed < space_needed && self.entries.len() > 0
            invariant
                self.wf(),
                self.max_size == old(self).max_size,
                self.clock == old(self).clock,
                self.stats.total_requests == old(self).stats.total_requests,
                self.stats.hits == old(self).stats.hits,
                self.stats.misses == old(self).stats.misses,
                self.stats.total_bytes_cached == old(self).stats.total_bytes_cached,
                self.stats.evictions + self.entries@.len() <= self.clock,
                self.stats.evictions == old(self).stats.evictions + (start.len() - self.entries@.len()),
                old(self).current_size + needed_size <= usize::MAX,
                space_needed == old(self).current_size + needed_size - self.max_size,
                self.current_size + space_freed == old(self).current_size,
                is_pruned(start, self.entries@),
                forall|e: CacheEntry| start.contains(e) ==> (self.entries@.contains(e) || evicted.contains(e)),
                forall|e: CacheEntry| #[trigger] evicted.contains(e) ==> !self.entries@.contains(e) && start.contains(e),
                forall|e: CacheEntry, k: CacheEntry| evicted.contains(e) && self.entries@.contains(k) ==> e.last_access_tick <= k.last_access_tick,
                self.entries@.len() + evicted.len() == start.len(),
                evicted.len() > 0 ==> self.current_size + evicted.last().size + needed_size > self.max_size,
                evicted.len() > 0 ==> forall|x: CacheEntry| #[trigger] evicted.contains(x) ==> x.last_access_tick <= evicted.last().last_access_tick,
            decreases self.entries.len(),
        {
            let i = self.least_recent();
            let ghost before = self.entries@;
            let e = self.entries.remove(i);
            proof {
                lemma_sum_sizes_remove(before, i as int);
                lemma_pruned_remove(start, before, i as int);
                lemma_remove_keeps_distinct(before, i as int);
                assert forall|x: CacheEntry| self.entries@.contains(x) implies before.contains(x) by {
                    let k = choose|k: int| 0 <= k < self.entries@.len() && self.entries@[k] == x;
                    let kk = if k < i { k } else { k + 1 };
                    assert(before[kk] == x);
                }
                assert(!self.entries@.contains(e)) by {
                    if self.entries@.contains(e) {
                        let k = choose|k: int| 0 <= k < self.entries@.len() && self.entries@[k] == e;
                        let kk = if k < i { k } else { k + 1 };
                        assert(before[kk].asset_id == before[i as int].asset_id);
                    }
                }
                assert forall|x: CacheEntry| before.contains(x) && x != e implies self.entries@.contains(x) by {
                    let k = choose|k: int| 0 <= k < before.len() && before[k] == x;
                    assert(k != i);
                    let kk = if k < i { k } else { k - 1 };
                    assert(self.entries@[kk] == x);
                }
                assert forall|k: CacheEntry| self.entries@.contains(k) implies e.last_access_tick <= k.last_access_tick by {
                    let m = choose|m: int| 0 <= m < self.entries@.len() && self.entries@[m] == k;
                    let mm = if m < i { m } else { m + 1 };
                    assert(before[mm] == k);
                }
                lemma_pruned_subset(start, before);
                let ghost ev0 = evicted;
                evicted = evicted.push(e);
                assert(evicted.drop_last() =~= ev0);
                assert forall|x: CacheEntry| #[trigger] evicted.contains(x) implies !self.entries@.contains(x) && start.contains(x) by {
                    if x != e {
                        let k = choose|k: int| 0 <= k < evicted.len() && evicted[k] == x;
                        assert(k < evicted.len() - 1);
                        assert(ev0[k] == x);
                        assert(ev0.contains(x));
                    } else {
                        assert(before[i as int] == e);
                        assert(before.contains(e));
                    }
                }
                assert forall|x: CacheEntry| start.contains(x) implies (self.entries@.contains(x) || evicted.contains(x)) by {
                    if !self.entries@.contains(x) {
                        if before.contains(x) {
                            assert(x == e);
                            assert(evicted[evicted.len() - 1] == e);
                        } else {
                            assert(ev0.contains(x));
                            let k = choose|k: int| 0 <= k < ev0.len() && ev0[k] == x;
                            assert(evicted[k] == x);
                        }
                    }
                }
                assert forall|x: CacheEntry, k: CacheEntry| evicted.contains(x) && self.entries@.contains(k) implies x.last_access_tick <= k.last_access_tick by {
                    if x != e {
                        let m = choose|m: int| 0 <= m < evicted.len() && evicted[m] == x;
                        assert(m < evicted.len() - 1);
                        assert(ev0[m] == x);
                        assert(ev0.contains(x));
                        assert(before.contains(k));
                    }
                }
                assert(before.contains(e)) by {
                    assert(before[i as int] == e);
                }
                assert forall|x: CacheEntry| #[trigger] evicted.contains(x) implies x.last_access_tick <= evicted.last().last_access_tick by {
                    if x != e {
                        let m = choose|m: int| 0 <= m < evicted.len() && evicted[m] == x;
                        assert(m < evicted.len() - 1);
                        assert(ev0[m] == x);
                        assert(ev0.contains(x));
                    }
                }
            }
            self.current_size = self.current_size - e.size;
            space_freed = space_freed + e.size;
            self.stats.evictions = self.stats.evictions + 1;
        }
        self.stats.cache_entries = self.entries.len();
        proof {
            if evicted.len() > 0 {
                let e = evicted.last();
                assert(evicted[evicted.len() - 1] == e);
                assert(evicted.contains(e));
                assert(start.contains(e));
                assert forall|x: CacheEntry|
                    start.contains(x) && !self.entries@.contains(x) implies x.last_access_tick
                    <= e.last_access_tick by {
                    assert(evicted.contains(x));
                }
                let t = e.last_access_tick;
                assert forall|x: CacheEntry|
                    #[trigger] start.contains(x) implies (!self.entries@.contains(x) <==> x.last_access_tick
                    <= t) by {
                    if self.entries@.contains(x) {
                        assert(e.last_access_tick <= x.last_access_tick);
                        let a = choose|a: int| 0 <= a < start.len() && start[a] == e;
                        let b = choose|b: int| 0 <= b < start.len() && start[b] == x;
                        assert(a != b);
                        if a < b {
                            assert(start[a].last_access_tick != start[b].last_access_tick);
                        } else {
                            assert(start[b].last_access_tick != start[a].last_access_tick);
                        }
                    } else {
                        assert(evicted.contains(x));
                    }
                }
                assert(taken_up_to(start, self.entries@, t));
            }
        }
    }

    /// Caches an asset unless it is cached already, first making room for it.
    pub fn put(&mut self, asset_id: [u8; 16], asset_type: AssetType, data: Vec<u8>)
        requires
            old(self).wf(),
            old(self).clock() < u64::MAX,
            old(self).size() + data@.len() <= usize::MAX,
            old(self).counters().total_bytes_cached + data@.len() <= u64::MAX,
        ensures
            final(self).wf(),
            final(self).capacity() == old(self).capacity(),
            holds(old(self).entries(), asset_id) ==> final(self).entries() == old(self).entries()
                && final(self).counters() == old(self).counters(),
            !holds(old(self).entries(), asset_id) ==> {
                &&& final(self).counters().total_bytes_cached == old(self).counters().total_bytes_cached
                    + data@.len()
                &&& final(self).counters().cache_entries == final(self).entries().len()
                &&& final(self).counters().evictions == old(self).counters().evictions + (old(
                    self,
                ).entries().len() + 1 - final(self).entries().len())
                &&& final(self).entries().len() > 0
                &&& final(self).entries().last().asset_id == asset_id
                &&& final(self).entries().last().data@ == data@
                &&& final(self).entries().last().asset_type == asset_type
                &&& is_pruned(old(self).entries(), final(self).entries().drop_last())
                &&& (old(self).size() + data@.len() <= old(self).capacity() ==> final(self).entries().drop_last() == old(self).entries())
                &&& (final(self).size() <= final(self).capacity() || final(self).entries().len() == 1)
                &&& (data@.len() <= old(self).capacity() ==> final(self).size() <= final(self).capacity())
                &&& forall|e: CacheEntry, k: CacheEntry|
                    old(self).entries().contains(e) && !final(self).entries().drop_last().contains(e)
                        && final(self).entries().drop_last().contains(k) ==> e.last_access_tick
                        <= k.last_access_tick
                &&& (final(self).entries().len() <= old(self).entries().len() ==> exists|t: u64|
                    #[trigger] taken_up_to(old(self).entries(), final(self).entries().drop_last(), t))
                &&& (final(self).entries().len() <= old(self).entries().len() ==> exists|e: CacheEntry|
                    #![trigger old(self).entries().contains(e)]
                    old(self).entries().contains(e) && !final(self).entries().drop_last().contains(e)
                        && (forall|x: CacheEntry|
                        old(self).entries().contains(x) && !final(self).entries().drop_last().contains(x)
                            ==> x.last_access_tick <= e.last_access_tick) && final(self).size() + e.size
                        > final(self).capacity())
            },
    {
        if self.contains(&asset_id) {
            return;
        }
        let size = data.len();
        self.ensure_space(size);
        let ghost kept = self.entries@;
        let ghost kept_size = self.current_size;
        proof {
            lemma_pruned_not_holds(old(self).entries@, kept, asset_id);
        }
        self.clock = self.clock + 1;
        let entry = CacheEntry {
            asset_id,
            asset_type,
            data,
            size,
            last_access_tick: self.clock,
            last_accessed: instant_now(),
            access_count: 1,
        };
        self.entries.push(entry);
        self.current_size = self.current_size + size;
        self.stats.total_bytes_cached = self.stats.total_bytes_cached + size as u64;
        self.stats.cache_entries = self.entries.len();
        proof {
            assert(self.entries@.drop_last() =~= kept);
            assert(self.current_size == kept_size + size);
            if kept.len() == 0 {
                assert(sum_sizes(kept) == 0);
            }
            assert forall|i: int, j: int| 0 <= i < j < self.entries@.len() implies self.entries@[i].asset_id != self.entries@[j].asset_id by {
                if j == self.entries@.len() - 1 {
                    assert(self.entries@[i] == kept[i]);
                    if kept[i].asset_id == asset_id {
                        assert(holds(kept, asset_id));
                    }
                }
            }
        }
    }

    /// Takes an asset out of the cache: whether it was there.
    pub fn remove(&mut self, asset_id: &[u8; 16]) -> (b: bool)
        requires
            old(self).wf(),
        ensures
            final(self).wf(),
            b == holds(old(self).entries(), *asset_id),
            !holds(final(self).entries(), *asset_id),
            is_pruned(old(self).entries(), final(self).entries()),
            !b ==> final(self).entries() == old(self).entries(),
            b ==> final(self).entries().len() + 1 == old(self).entries().len(),
            final(self).capacity() == old(self).capacity(),
            final(self).clock() == old(self).clock(),
    {
        match self.position(asset_id) {
            Some(i) => {
                let ghost before = self.entries@;
                let e = self.entries.remove(i);
                proof {
                    lemma_sum_sizes_remove(before, i as int);
                    lemma_pruned_refl(before);
                    lemma_pruned_remove(before, before, i as int);
                    lemma_remove_keeps_distinct(before, i as int);
                    if holds(self.entries@, *asset_id) {
                        let k = choose|k: int| 0 <= k < self.entries@.len() && self.entries@[k].asset_id == *asset_id;
                        let kk = if k < i { k } else { k + 1 };
                        assert(before[kk].asset_id == before[i as int].asset_id);
                    }
                }
                self.current_size = self.current_size - e.size;
                self.stats.cache_entries = self.entries.len();
                true
            },
            None => {
                proof {
                    lemma_pruned_refl(self.entries@);
                }
                false
            },
        }
    }

    /// Empties the cache.
    pub fn clear(&mut self)
        requires
            old(self).wf(),
        ensures
            final(self).wf(),
            final(self).entries() == Seq::<CacheEntry>::empty(),
            final(self).size() == 0,
            final(self).capacity() == old(self).capacity(),
    {
        self.entries = Vec::new();
        self.current_size = 0;
        self.stats.cache_entries = 0;
    }

    /// Removes the assets not used for longer than `max_age` that were used
    /// fewer than three times. How long ago an asset was used is read from
    /// the clock; whatever it says, assets used three times or more stay.
    pub fn maintenance(&mut self, max_age: &Duration)
        requires
            old(self).wf(),
        ensures
            final(self).wf(),
            is_pruned(old(self).entries(), final(self).entries()),
            forall|e: CacheEntry| old(self).entries().contains(e) && e.access_count >= 3 ==> final(self).entries().contains(e),
            final(self).capacity() == old(self).capacity(),
            final(self).clock() == old(self).clock(),
    {
        let mut i: usize = 0;
        let ghost start = self.entries@;
        proof {
            lemma_pruned_refl(start);
        }
        while i < self.entries.len()
            invariant
                self.wf(),
                i <= self.entries.len(),
                self.max_size == old(self).max_size,
                self.clock == old(self).clock,
                is_pruned(start, self.entries@),
                forall|e: CacheEntry| start.contains(e) && e.access_count >= 3 ==> self.entries@.contains(e),
            decreases self.entries.len() - i,
        {
            let age = instant_elapsed(&self.entries[i].last_accessed);
            let stale = duration_longer(&age, max_age) && self.entries[i].access_count < 3;
            if stale {
                let ghost before = self.entries@;
                let e = self.entries.remove(i);
                proof {
                    lemma_sum_sizes_remove(before, i as int);
                    lemma_pruned_remove(start, before, i as int);
                    lemma_remove_keeps_distinct(before, i as int);
                    assert forall|x: CacheEntry| start.contains(x) && x.access_count >= 3 implies self.entries@.contains(x) by {
                        assert(before.contains(x));
                        let k = choose|k: int| 0 <= k < before.len() && before[k] == x;
                        assert(k != i);
                        let kk = if k < i { k } else { k - 1 };
                        assert(self.entries@[kk] == x);
                    }
                }
                self.current_size = self.current_size - e.size;
                self.stats.cache_entries = self.entries.len();
            } else {
                i = i + 1;
            }
        }
    }
}

/// What was put is what is read back: after an asset was cached as the
/// newest entry, looking it up finds its data.
pub proof fn lemma_put_then_get(c: AssetCache, id: [u8; 16], data: Seq<u8>)
    requires
        c.wf(),
        c.entries().len() > 0,
        c.entries().last().asset_id == id,
        c.entries().last().data@ == data,
    ensures
        holds(c.entries(), id),
        find_entry(c.entries(), id) matches Some(e) && e.data@ == data,
{
    let es = c.entries();
    assert(es.last() == es[es.len() - 1]);
    lemma_find_entry(es, id, es.len() - 1);
}

impl CacheStats {
    /// All counters zero.
    pub open spec fn default_spec() -> CacheStats {
        CacheStats {
            hits: 0,
            misses: 0,
            evictions: 0,
            total_requests: 0,
            total_bytes_cached: 0,
            cache_entries: 0,
        }
    }
}

proof fn lemma_sum_sizes_remove(es: Seq<CacheEntry>, i: int)
    requires
        0 <= i < es.len(),
    ensures
        sum_sizes(es.remove(i)) + es[i].size == sum_sizes(es),
    decreases es.len(),
{
    if i == es.len() - 1 {
        assert(es.remove(i) =~= es.drop_last());
    } else {
        lemma_sum_sizes_remove(es.drop_last(), i);
        assert(es.remove(i).drop_last() =~= es.drop_last().remove(i));
        assert(es.remove(i).last() == es.last());
    }
}

proof fn lemma_sum_sizes_update(es: Seq<CacheEntry>, i: int, e: CacheEntry)
    requires
        0 <= i < es.len(),
        e.size == es[i].size,
    ensures
        sum_sizes(es.update(i, e)) == sum_sizes(es),
    decreases es.len(),
{
    if i == es.len() - 1 {
        assert(es.update(i, e).drop_last() =~= es.drop_last());
    } else {
        lemma_sum_sizes_update(es.drop_last(), i, e);
        assert(es.update(i, e).drop_last() =~= es.drop_last().update(i, e));
    }
}

proof fn lemma_pruned_refl(es: Seq<CacheEntry>)
    ensures
        is_pruned(es, es),
{
    let idx = Seq::new(es.len(), |a: int| a);
    assert(idx.len() == es.len());
    assert(forall|a: int| 0 <= a < idx.len() ==> #[trigger] idx[a] == a);
}

proof fn lemma_pruned_subset(start: Seq<CacheEntry>, kept: Seq<CacheEntry>)
    requires
        is_pruned(start, kept),
    ensures
        forall|x: CacheEntry| kept.contains(x) ==> start.contains(x),
{
    let idx = choose|idx: Seq<int>|
        idx.len() == kept.len() && (forall|a: int, b: int| 0 <= a < b < idx.len() ==> idx[a] < idx[b])
            && (forall|a: int| 0 <= a < idx.len() ==> 0 <= #[trigger] idx[a] < start.len() && start[idx[a]] == kept[a]);
    assert forall|x: CacheEntry| kept.contains(x) implies start.contains(x) by {
        let k = choose|k: int| 0 <= k < kept.len() && kept[k] == x;
        assert(start[idx[k]] == x);
    }
}

proof fn lemma_pruned_remove(start: Seq<CacheEntry>, before: Seq<CacheEntry>, i: int)
    requires
        is_pruned(start, before),
        0 <= i < before.len(),
    ensures
        is_pruned(start, before.remove(i)),
{
    let idx = choose|idx: Seq<int>|
        idx.len() == before.len() && (forall|a: int, b: int| 0 <= a < b < idx.len() ==> idx[a] < idx[b])
            && (forall|a: int| 0 <= a < idx.len() ==> 0 <= #[trigger] idx[a] < start.len() && start[idx[a]] == before[a]);
    let nidx = idx.remove(i);
    assert forall|a: int, b: int| 0 <= a < b < nidx.len() implies nidx[a] < nidx[b] by {
        let aa = if a < i { a } else { a + 1 };
        let bb = if b < i { b } else { b + 1 };
        assert(nidx[a] == idx[aa] && nidx[b] == idx[bb]);
    }
    assert forall|a: int| 0 <= a < nidx.len() implies 0 <= #[trigger] nidx[a] < start.len() && start[nidx[a]] == before.remove(i)[a] by {
        let aa = if a < i { a } else { a + 1 };
        assert(nidx[a] == idx[aa]);
        assert(before.remove(i)[a] == before[aa]);
    }
}

proof fn lemma_remove_keeps_distinct(es: Seq<CacheEntry>, i: int)
    requires
        0 <= i < es.len(),
        forall|a: int, b: int| 0 <= a < b < es.len() ==> es[a].asset_id != es[b].asset_id,
        forall|a: int, b: int| 0 <= a < b < es.len() ==> es[a].last_access_tick != es[b].last_access_tick,
    ensures
        forall|a: int, b: int| 0 <= a < b < es.remove(i).len() ==> es.remove(i)[a].asset_id != es.remove(i)[b].asset_id,
        forall|a: int, b: int|
            0 <= a < b < es.remove(i).len() ==> es.remove(i)[a].last_access_tick != es.remove(
                i,
            )[b].last_access_tick,
        forall|a: int| 0 <= a < es.remove(i).len() ==> es.contains(#[trigger] es.remove(i)[a]),
{
    let r = es.remove(i);
    assert forall|a: int, b: int| 0 <= a < b < r.len() implies r[a].asset_id != r[b].asset_id && r[a].last_access_tick
        != r[b].last_access_tick by {
        let aa = if a < i { a } else { a + 1 };
        let bb = if b < i { b } else { b + 1 };
        assert(r[a] == es[aa] && r[b] == es[bb]);
    }
    assert forall|a: int| 0 <= a < r.len() implies es.contains(#[trigger] r[a]) by {
        let aa = if a < i { a } else { a + 1 };
        assert(r[a] == es[aa]);
    }
}

proof fn lemma_pruned_not_holds(es: Seq<CacheEntry>, kept: Seq<CacheEntry>, id: [u8; 16])
    requires
        is_pruned(es, kept),
        !holds(es, id),
    ensures
        !holds(kept, id),
{
    if holds(kept, id) {
        let idx = choose|idx: Seq<int>|
            idx.len() == kept.len() && (forall|a: int, b: int| 0 <= a < b < idx.len() ==> idx[a] < idx[b])
                && (forall|a: int| 0 <= a < idx.len() ==> 0 <= #[trigger] idx[a] < es.len() && es[idx[a]] == kept[a]);
        let k = choose|k: int| 0 <= k < kept.len() && kept[k].asset_id == id;
        assert(es[idx[k]] == kept[k]);
    }
}

proof fn lemma_find_entry(es: Seq<CacheEntry>, id: [u8; 16], i: int)
    requires
        0 <= i < es.len(),
        es[i].asset_id == id,
        forall|a: int, b: int| 0 <= a < b < es.len() ==> es[a].asset_id != es[b].asset_id,
    ensures
        find_entry(es, id) == Some(es[i]),
{
    assert(holds(es, id));
    let k = choose|k: int| 0 <= k < es.len() && es[k].asset_id == id;
    if k != i {
        if k < i {
        } else {
        }
    }
}

} // verus!
