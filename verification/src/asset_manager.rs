//! The asset manager's bookkeeping: the cache it answers from, the queue of
//! transfers by priority, the transfers under way, the callbacks waiting for
//! results and the counters. Fetching over HTTP or UDP is left to the
//! caller, which the manager tells what to fetch and which hands the outcome
//! back; callbacks of type `C` are handed back to be called.

use vstd::prelude::*;
use std::time::Duration;
use crate::asset_cache::{find_entry, holds, AssetCache, CacheEntry, CacheStats};
use crate::assets::{
    asset_type_name, priority_level, AssetPriority, AssetTransferConfig, AssetTransferStatus, AssetType,
    QueuedTransfer, TransferStats,
};
use crate::bytes_util::{copy_bytes, ids_equal};
use crate::error::{NetworkError, NetworkErrorView};
use crate::text::{push_str, string_of};
use crate::time_util::{duration_as_millis, duration_from_millis, duration_from_secs, duration_longer};

verus! {

/// How far a transfer has come.
#[derive(Debug, Clone, Copy)]
pub struct TransferProgress {
    pub asset_id: [u8; 16],
    pub bytes_received: usize,
    pub total_bytes: Option<usize>,
    /// Bit pattern of the `f64` rate in bytes per second.
    pub transfer_rate_bits: u64,
    pub estimated_time_remaining: Option<Duration>,
    pub status: AssetTransferStatus,
}

/// The outcome of an asset request.
#[derive(Debug)]
pub struct AssetTransferResult {
    pub asset_id: [u8; 16],
    pub asset_type: AssetType,
    pub status: AssetTransferStatus,
    pub data: Option<Vec<u8>>,
    pub error: Option<String>,
    pub transfer_time: Duration,
}

/// Which capability serves an asset over HTTP.
#[derive(Debug, Clone, Copy, PartialEq, Eq)]
pub enum HttpAsset {
    Texture,
    Mesh,
}

/// What follows a finished transfer attempt.
#[derive(Debug)]
pub enum TransferOutcome<C> {
    /// Try again: queue `transfer` again after the retry delay.
    Retry { transfer: QueuedTransfer },
    /// Done: call `callback`, if any, with `result`.
    Done { callback: Option<C>, result: AssetTransferResult },
}

/// What is compared of queued transfers: asset, type, priority and retries.
pub open spec fn transfer_key(t: QueuedTransfer) -> ([u8; 16], AssetType, AssetPriority, u32, u32) {
    (t.asset_id, t.asset_type, t.priority, t.retry_count, t.max_retries)
}

/// The queue by `transfer_key`.
pub open spec fn queue_keys(q: Seq<QueuedTransfer>) -> Seq<([u8; 16], AssetType, AssetPriority, u32, u32)> {
    q.map_values(|t: QueuedTransfer| transfer_key(t))
}

/// Where a transfer of priority level `lvl` goes: before the first queued
/// transfer of lower priority, or at the end.
pub open spec fn insert_pos(q: Seq<QueuedTransfer>, lvl: u8) -> int
    decreases q.len(),
{
    if q.len() == 0 {
        0
    } else if insert_pos(q.drop_last(), lvl) < q.len() - 1 {
        insert_pos(q.drop_last(), lvl)
    } else if priority_level(q.last().priority) < lvl {
        q.len() - 1
    } else {
        q.len() as int
    }
}

/// Whether the queue runs from higher to lower priority.
pub open spec fn by_priority(q: Seq<QueuedTransfer>) -> bool {
    forall|i: int, j: int| 0 <= i < j < q.len() ==> priority_level(q[i].priority) >= priority_level(q[j].priority)
}

/// The entries of an association list keyed by asset, without `id`.
pub open spec fn without<T>(l: Seq<([u8; 16], T)>, id: [u8; 16]) -> Seq<([u8; 16], T)>
    decreases l.len(),
{
    if l.len() == 0 {
        l
    } else if l.last().0 == id {
        without(l.drop_last(), id)
    } else {
        without(l.drop_last(), id).push(l.last())
    }
}

/// The value bound to `id`, if any (the first binding).
pub open spec fn lookup<T>(l: Seq<([u8; 16], T)>, id: [u8; 16]) -> Option<T>
    decreases l.len(),
{
    if l.len() == 0 {
        None
    } else {
        match lookup(l.drop_last(), id) {
            Some(v) => Some(v),
            None => if l.last().0 == id {
                Some(l.last().1)
            } else {
                None
            },
        }
    }
}

/// The queued transfers not for `id`, in order.
pub open spec fn queue_without(q: Seq<QueuedTransfer>, id: [u8; 16]) -> Seq<QueuedTransfer>
    decreases q.len(),
{
    if q.len() == 0 {
        q
    } else if q.last().asset_id == id {
        queue_without(q.drop_last(), id)
    } else {
        queue_without(q.drop_last(), id).push(q.last())
    }
}

/// The transfers under way not for `id`, in order.
pub open spec fn active_without(a: Seq<TransferProgress>, id: [u8; 16]) -> Seq<TransferProgress>
    decreases a.len(),
{
    if a.len() == 0 {
        a
    } else if a.last().asset_id == id {
        active_without(a.drop_last(), id)
    } else {
        active_without(a.drop_last(), id).push(a.last())
    }
}

/// The transfers still in progress, in order.
pub open spec fn in_progress(a: Seq<TransferProgress>) -> Seq<TransferProgress>
    decreases a.len(),
{
    if a.len() == 0 {
        a
    } else if a.last().status == AssetTransferStatus::InProgress {
        in_progress(a.drop_last()).push(a.last())
    } else {
        in_progress(a.drop_last())
    }
}

/// A fresh progress record for `id`.
pub open spec fn fresh_progress(id: [u8; 16]) -> TransferProgress {
    TransferProgress {
        asset_id: id,
        bytes_received: 0,
        total_bytes: None,
        transfer_rate_bits: 0,
        estimated_time_remaining: None,
        status: AssetTransferStatus::InProgress,
    }
}

/// The text of the error for a type that HTTP does not serve.
pub open spec fn unsupported_http_text(t: AssetType) -> Seq<char> {
    "Asset type "@ + asset_type_name(t) + " not supported for HTTP transfer"@
}

/// The asset manager.
#[derive(Debug)]
pub struct AssetManager<C> {
    cache: AssetCache,
    config: AssetTransferConfig,
    transfer_queue: Vec<QueuedTransfer>,
    active_transfers: Vec<TransferProgress>,
    stats: TransferStats,
    callbacks: Vec<([u8; 16], C)>,
}

fn queue_position(q: &Vec<QueuedTransfer>, lvl: u8) -> (pos: usize)
    ensures
        pos == insert_pos(q@, lvl),
        pos <= q.len(),
{
    let mut pos: usize = q.len();
    let mut i: usize = 0;
    while i < q.len()
        invariant
            i <= q.len(),
            pos == (if insert_pos(q@.take(i as int), lvl) < i {
                insert_pos(q@.take(i as int), lvl)
            } else {
                q.len() as int
            }),
            insert_pos(q@.take(i as int), lvl) <= i,
        decreases q.len() - i,
    {
        proof {
            assert(q@.take(i + 1).drop_last() =~= q@.take(i as int));
            assert(q@.take(i + 1).last() == q@[i as int]);
        }
        if pos == q.len() && q[i].priority.level() < lvl {
            pos = i;
        }
        i = i + 1;
    }
    assert(q@.take(q.len() as int) =~= q@);
    pos
}

impl<C> AssetManager<C> {
    /// The transfers waiting, in the order they will be taken.
    pub closed spec fn queue(&self) -> Seq<QueuedTransfer> {
        self.transfer_queue@
    }

    /// The transfers under way.
    pub closed spec fn active(&self) -> Seq<TransferProgress> {
        self.active_transfers@
    }

    /// The callbacks waiting, by asset.
    pub closed spec fn waiting(&self) -> Seq<([u8; 16], C)> {
        self.callbacks@
    }

    /// The counters.
    pub closed spec fn counters(&self) -> TransferStats {
        self.stats
    }

    /// The cached assets.
    pub closed spec fn cached(&self) -> Seq<CacheEntry> {
        self.cache.entries()
    }

    /// The cache's capacity in bytes.
    pub closed spec fn cache_capacity(&self) -> nat {
        self.cache.capacity()
    }

    /// The cache's logical clock.
    pub closed spec fn cache_clock(&self) -> u64 {
        self.cache.clock()
    }

    /// The bytes cached.
    pub closed spec fn cache_size(&self) -> nat {
        self.cache.size()
    }

    /// The cache's counters.
    pub closed spec fn cache_counters(&self) -> CacheStats {
        self.cache.counters()
    }

    /// The settings.
    pub closed spec fn settings(&self) -> AssetTransferConfig {
        self.config
    }

    /// The cache as a whole.
    pub closed spec fn cache_state(&self) -> AssetCache {
        self.cache
    }

    /// The cache is well formed.
    pub closed spec fn wf(&self) -> bool {
        self.cache.wf()
    }

    /// An empty manager with a cache of the configured size.
    pub fn new(config: AssetTransferConfig) -> (m: Self)
        requires
            config.cache_size_mb * 1024 * 1024 <= usize::MAX,
        ensures
            m.wf(),
            m.queue() == Seq::<QueuedTransfer>::empty(),
            m.active() == Seq::<TransferProgress>::empty(),
            m.waiting() == Seq::<([u8; 16], C)>::empty(),
            m.cached() == Seq::<CacheEntry>::empty(),
            m.cache_capacity() == config.cache_size_mb * 1024 * 1024,
            m.settings() == config,
            m.counters().total_requests == 0 && m.counters().successful_transfers == 0
                && m.counters().failed_transfers == 0 && m.counters().cached_hits == 0
                && m.counters().http_transfers == 0 && m.counters().udp_transfers == 0
                && m.counters().bytes_transferred == 0,
    {
        AssetManager {
            cache: AssetCache::new(config.cache_size_mb),
            config,
            transfer_queue: Vec::new(),
            active_transfers: Vec::new(),
            stats: TransferStats::default(),
            callbacks: Vec::new(),
        }
    }

    /// Binds `callback` to `id`, replacing an earlier binding.
    fn bind_callback(&mut self, id: [u8; 16], callback: C)
        ensures
            final(self).waiting() == without(old(self).waiting(), id).push((id, callback)),
            final(self).queue() == old(self).queue(),
            final(self).active() == old(self).active(),
            final(self).counters() == old(self).counters(),
            final(self).cache_state() == old(self).cache_state(),
            final(self).settings() == old(self).settings(),
    {
        let _earlier = self.take_callback(&id);
        self.callbacks.push((id, callback));
    }

    /// Takes the callback bound to `id`, if any; none stays bound to it.
    fn take_callback(&mut self, id: &[u8; 16]) -> (r: Option<C>)
        ensures
            final(self).waiting() == without(old(self).waiting(), *id),
            r == lookup(old(self).waiting(), *id),
            final(self).queue() == old(self).queue(),
            final(self).active() == old(self).active(),
            final(self).counters() == old(self).counters(),
            final(self).cache_state() == old(self).cache_state(),
            final(self).settings() == old(self).settings(),
    {
        let mut rest: Vec<([u8; 16], C)> = Vec::new();
        std::mem::swap(&mut rest, &mut self.callbacks);
        let ghost all = rest@;
        let mut found: Option<C> = None;
        let mut n: usize = 0;
        let total = rest.len();
        while rest.len() > 0
            invariant
                n + rest@.len() == total,
                total == all.len(),
                rest@ == all.skip(n as int),
                self.callbacks@ == without(all.take(n as int), *id),
                found == lookup(all.take(n as int), *id),
                self.transfer_queue == old(self).transfer_queue,
                self.active_transfers == old(self).active_transfers,
                self.stats == old(self).stats,
                self.cache == old(self).cache,
                self.config == old(self).config,
                all == old(self).callbacks@,
            decreases rest.len(),
        {
            let e = rest.remove(0);
            proof {
                assert(e == all[n as int]);
                assert(all.take(n + 1).drop_last() =~= all.take(n as int));
                assert(all.take(n + 1).last() == all[n as int]);
            }
            if ids_equal(&e.0, id) {
                if found.is_none() {
                    found = Some(e.1);
                }
            } else {
                self.callbacks.push(e);
            }
            n = n + 1;
            assert(rest@ =~= all.skip(n as int));
        }
        assert(all.take(n as int) =~= all);
        found
    }

    /// Takes in a request for asset `asset_id`. A cached asset is answered at
    /// once: the callback comes back with a `Cached` result holding the
    /// data. Otherwise the callback, if any, waits for the asset and the
    /// transfer is queued before the first one of lower priority.
    pub fn request_asset(
        &mut self,
        asset_id: [u8; 16],
        asset_type: AssetType,
        priority: AssetPriority,
        callback: Option<C>,
    ) -> (r: Option<(Option<C>, AssetTransferResult)>)
        requires
            old(self).wf(),
            old(self).counters().total_requests < u64::MAX,
            old(self).counters().cached_hits < u64::MAX,
            old(self).cache_clock() < u64::MAX,
        ensures
            final(self).wf(),
            final(self).counters().total_requests == old(self).counters().total_requests + 1,
            final(self).active() == old(self).active(),
            final(self).cache_capacity() == old(self).cache_capacity(),
            final(self).cache_clock() == old(self).cache_clock() + 1,
            holds(old(self).cached(), asset_id) ==> {
                &&& r matches Some((cb, res)) && cb == callback && res.asset_id == asset_id
                    && res.asset_type == asset_type && res.status == AssetTransferStatus::Cached
                    && res.error is None && (res.data matches Some(d) && d@ == find_entry(
                    old(self).cached(),
                    asset_id,
                ).unwrap().data@)
                &&& final(self).counters().cached_hits == old(self).counters().cached_hits + 1
                &&& final(self).queue() == old(self).queue()
                &&& final(self).waiting() == old(self).waiting()
            },
            !holds(old(self).cached(), asset_id) ==> {
                &&& r is None
                &&& final(self).counters().cached_hits == old(self).counters().cached_hits
                &&& queue_keys(final(self).queue()) == queue_keys(old(self).queue()).insert(
                    insert_pos(old(self).queue(), priority_level(priority)),
                    (asset_id, asset_type, priority, 0u32, 3u32),
                )
                &&& final(self).waiting() == match callback {
                    Some(c) => without(old(self).waiting(), asset_id).push((asset_id, c)),
                    None => old(self).waiting(),
                }
            },
    {
        self.stats.total_requests = self.stats.total_requests + 1;
        match self.cache.get(&asset_id) {
            Some(data) => {
                self.stats.cached_hits = self.stats.cached_hits + 1;
                let result = AssetTransferResult {
                    asset_id,
                    asset_type,
                    status: AssetTransferStatus::Cached,
                    data: Some(data),
                    error: None,
                    transfer_time: duration_from_millis(0),
                };
                Some((callback, result))
            },
            None => {
                if let Some(c) = callback {
                    self.bind_callback(asset_id, c);
                }
                let queued = QueuedTransfer::new(asset_id, asset_type, priority);
                let pos = queue_position(&self.transfer_queue, priority.level());
                let ghost before = self.transfer_queue@;
                self.transfer_queue.insert(pos, queued);
                assert(queue_keys(self.transfer_queue@) =~= queue_keys(before).insert(
                    pos as int,
                    (asset_id, asset_type, priority, 0u32, 3u32),
                ));
                None
            },
        }
    }

    /// The next transfer to carry out: the one at the head of the queue.
    pub fn next_transfer(&mut self) -> (r: Option<QueuedTransfer>)
        ensures
            r is Some <==> old(self).queue().len() > 0,
            r matches Some(t) ==> t == old(self).queue()[0] && final(self).queue() == old(self).queue().drop_first(),
            r is None ==> final(self).queue() == old(self).queue(),
            final(self).active() == old(self).active(),
            final(self).waiting() == old(self).waiting(),
            final(self).counters() == old(self).counters(),
            final(self).cache_state() == old(self).cache_state(),
    {
        if self.transfer_queue.len() == 0 {
            None
        } else {
            let t = self.transfer_queue.remove(0);
            assert(self.transfer_queue@ =~= old(self).transfer_queue@.drop_first());
            Some(t)
        }
    }

    /// Puts a transfer back at the end of the queue, for another attempt.
    pub fn requeue(&mut self, transfer: QueuedTransfer)
        ensures
            final(self).queue() == old(self).queue().push(transfer),
            final(self).active() == old(self).active(),
            final(self).waiting() == old(self).waiting(),
            final(self).counters() == old(self).counters(),
            final(self).cache_state() == old(self).cache_state(),
    {
        self.transfer_queue.push(transfer);
    }

    /// Drops the progress record of `id`.
    fn drop_active(&mut self, id: &[u8; 16]) -> (had: bool)
        ensures
            final(self).active() == active_without(old(self).active(), *id),
            had == (exists|i: int| 0 <= i < old(self).active().len() && old(self).active()[i].asset_id == *id),
            final(self).queue() == old(self).queue(),
            final(self).waiting() == old(self).waiting(),
            final(self).counters() == old(self).counters(),
            final(self).cache_state() == old(self).cache_state(),
            final(self).settings() == old(self).settings(),
    {
        let ghost all = self.active_transfers@;
        let mut kept: Vec<TransferProgress> = Vec::new();
        let mut had = false;
        let mut i: usize = 0;
        while i < self.active_transfers.len()
            invariant
                i <= self.active_transfers.len(),
                self.active_transfers@ == all,
                kept@ == active_without(all.take(i as int), *id),
                had == (exists|k: int| 0 <= k < i && all[k].asset_id == *id),
            decreases self.active_transfers.len() - i,
        {
            proof {
                assert(all.take(i + 1).drop_last() =~= all.take(i as int));
                assert(all.take(i + 1).last() == all[i as int]);
            }
            let p = self.active_transfers[i];
            if ids_equal(&p.asset_id, id) {
                had = true;
            } else {
                kept.push(p);
            }
            i = i + 1;
        }
        assert(all.take(all.len() as int) =~= all);
        self.active_transfers = kept;
        had
    }

    /// Records that `transfer` is under way, replacing an earlier record for
    /// the same asset.
    pub fn start_transfer(&mut self, transfer: &QueuedTransfer)
        ensures
            final(self).active() == active_without(old(self).active(), transfer.asset_id).push(
                fresh_progress(transfer.asset_id),
            ),
            final(self).queue() == old(self).queue(),
            final(self).waiting() == old(self).waiting(),
            final(self).counters() == old(self).counters(),
            final(self).cache_state() == old(self).cache_state(),
    {
        let _earlier = self.drop_active(&transfer.asset_id);
        self.active_transfers.push(
            TransferProgress {
                asset_id: transfer.asset_id,
                bytes_received: 0,
                total_bytes: None,
                transfer_rate_bits: 0,
                estimated_time_remaining: None,
                status: AssetTransferStatus::InProgress,
            },
        );
    }

    /// Starts an HTTP attempt for an asset of type `asset_type`: it needs a
    /// capabilities manager (`has_capabilities`) and counts as an HTTP
    /// transfer from then on; textures and meshes have a capability, other
    /// types are refused.
    pub fn begin_http_transfer(&mut self, has_capabilities: bool, asset_type: AssetType) -> (r: Result<
        HttpAsset,
        NetworkError,
    >)
        requires
            old(self).counters().http_transfers < u64::MAX,
        ensures
            !has_capabilities ==> (r matches Err(e) && e@ == (NetworkErrorView::Other {
                reason: "No capabilities manager available"@,
            })) && final(self).counters() == old(self).counters(),
            has_capabilities ==> final(self).counters() == (TransferStats {
                http_transfers: (old(self).counters().http_transfers + 1) as u64,
                ..old(self).counters()
            }),
            has_capabilities && (asset_type == AssetType::Texture || asset_type == AssetType::ImageJPEG
                || asset_type == AssetType::ImageTGA) ==> r == Ok::<HttpAsset, NetworkError>(HttpAsset::Texture),
            has_capabilities && asset_type == AssetType::Mesh ==> r == Ok::<HttpAsset, NetworkError>(HttpAsset::Mesh),
            has_capabilities && !(asset_type == AssetType::Texture || asset_type == AssetType::ImageJPEG
                || asset_type == AssetType::ImageTGA || asset_type == AssetType::Mesh) ==> (r matches Err(e)
                && e@ == (NetworkErrorView::Other { reason: unsupported_http_text(asset_type) })),
            final(self).queue() == old(self).queue(),
            final(self).active() == old(self).active(),
            final(self).waiting() == old(self).waiting(),
            final(self).cache_state() == old(self).cache_state(),
    {
        if !has_capabilities {
            return Err(NetworkError::Other { reason: String::from_str("No capabilities manager available") });
        }
        self.stats.http_transfers = self.stats.http_transfers + 1;
        match asset_type {
            AssetType::Texture | AssetType::ImageJPEG | AssetType::ImageTGA => Ok(HttpAsset::Texture),
            AssetType::Mesh => Ok(HttpAsset::Mesh),
            _ => {
                let mut text: Vec<char> = Vec::new();
                push_str(&mut text, "Asset type ");
                push_str(&mut text, asset_type.debug_name());
                push_str(&mut text, " not supported for HTTP transfer");
                Err(NetworkError::Other { reason: string_of(&text) })
            },
        }
    }

    /// Starts a UDP attempt: it counts as a UDP transfer and fails, since
    /// fetching assets over UDP is not carried out.
    pub fn begin_udp_transfer(&mut self) -> (e: NetworkError)
        requires
            old(self).counters().udp_transfers < u64::MAX,
        ensures
            e@ == (NetworkErrorView::Other { reason: "UDP asset transfer implementation pending"@ }),
            final(self).counters() == (TransferStats {
                udp_transfers: (old(self).counters().udp_transfers + 1) as u64,
                ..old(self).counters()
            }),
            final(self).queue() == old(self).queue(),
            final(self).active() == old(self).active(),
            final(self).waiting() == old(self).waiting(),
            final(self).cache_state() == old(self).cache_state(),
    {
        self.stats.udp_transfers = self.stats.udp_transfers + 1;
        NetworkError::Other { reason: String::from_str("UDP asset transfer implementation pending") }
    }

    /// Takes in the outcome of an attempt at `transfer`, which took
    /// `transfer_time`; it is no longer under way. Fetched data is cached and
    /// counted, and the waiting callback comes back with a `Success` result.
    /// A failed attempt with retries left is counted as a retry and the
    /// transfer comes back to be queued again; without retries left it is
    /// counted as failed and the callback comes back with a `Failed` result
    /// carrying `error`.
    pub fn finish_transfer(
        &mut self,
        transfer: QueuedTransfer,
        outcome: Result<Vec<u8>, String>,
        transfer_time: Duration,
    ) -> (r: TransferOutcome<C>)
        requires
            old(self).wf(),
            old(self).cache_clock() < u64::MAX,
            old(self).counters().successful_transfers < u64::MAX,
            old(self).counters().failed_transfers < u64::MAX,
            transfer.retry_count < u32::MAX,
            outcome matches Ok(d) ==> old(self).cache_size() + d@.len() <= usize::MAX
                && old(self).cache_counters().total_bytes_cached + d@.len() <= u64::MAX
                && old(self).counters().bytes_transferred + d@.len() <= u64::MAX,
        ensures
            final(self).wf(),
            final(self).active() == active_without(old(self).active(), transfer.asset_id),
            final(self).queue() == old(self).queue(),
            final(self).cache_capacity() == old(self).cache_capacity(),
            match outcome {
                Ok(d) => {
                    &&& r matches TransferOutcome::Done { callback, result } && callback == lookup(
                        old(self).waiting(),
                        transfer.asset_id,
                    ) && result.asset_id == transfer.asset_id && result.asset_type == transfer.asset_type
                        && result.status == AssetTransferStatus::Success && result.error is None
                        && (result.data matches Some(x) && x@ == d@)
                    &&& final(self).waiting() == without(old(self).waiting(), transfer.asset_id)
                    &&& final(self).counters().successful_transfers == old(self).counters().successful_transfers + 1
                    &&& final(self).counters().bytes_transferred == old(self).counters().bytes_transferred + d@.len()
                    &&& final(self).counters().failed_transfers == old(self).counters().failed_transfers
                    &&& holds(final(self).cached(), transfer.asset_id)
                    &&& !holds(old(self).cached(), transfer.asset_id) ==> (find_entry(
                        final(self).cached(),
                        transfer.asset_id,
                    ) matches Some(e) && e.data@ == d@)
                    &&& holds(old(self).cached(), transfer.asset_id) ==> final(self).cached() == old(
                        self,
                    ).cached()
                },
                Err(msg) => if transfer.retry_count < transfer.max_retries {
                    &&& r matches TransferOutcome::Retry { transfer: t } && transfer_key(t) == (
                        transfer.asset_id,
                        transfer.asset_type,
                        transfer.priority,
                        (transfer.retry_count + 1) as u32,
                        transfer.max_retries,
                    )
                    &&& final(self).waiting() == old(self).waiting()
                    &&& final(self).counters() == old(self).counters()
                    &&& final(self).cached() == old(self).cached()
                } else {
                    &&& r matches TransferOutcome::Done { callback, result } && callback == lookup(
                        old(self).waiting(),
                        transfer.asset_id,
                    ) && result.asset_id == transfer.asset_id && result.asset_type == transfer.asset_type
                        && result.status == AssetTransferStatus::Failed && result.data is None
                        && (result.error matches Some(x) && x@ == msg@)
                    &&& final(self).waiting() == without(old(self).waiting(), transfer.asset_id)
                    &&& final(self).counters() == (TransferStats {
                        failed_transfers: (old(self).counters().failed_transfers + 1) as u64,
                        ..old(self).counters()
                    })
                    &&& final(self).cached() == old(self).cached()
                },
            },
    {
        let mut transfer = transfer;
        let _was_active = self.drop_active(&transfer.asset_id);
        let result = match outcome {
            Ok(data) => {
                let copy = copy_bytes(data.as_slice(), 0, data.len());
                assert(copy@ =~= data@);
                let len = data.len();
                let ghost before = self.cache.entries();
                self.cache.put(transfer.asset_id, transfer.asset_type, copy);
                proof {
                    if !holds(before, transfer.asset_id) {
                        crate::asset_cache::lemma_put_then_get(self.cache, transfer.asset_id, data@);
                    }
                }
                let previous = self.stats.successful_transfers;
                self.stats.successful_transfers = previous + 1;
                self.stats.bytes_transferred = self.stats.bytes_transferred + len as u64;
                let avg_ms = duration_as_millis(&self.stats.average_transfer_time);
                let took_ms = duration_as_millis(&transfer_time);
                let avg64: u64 = #[verifier::truncate] (avg_ms as u64);
                let took64: u64 = #[verifier::truncate] (took_ms as u64);
                let n64: u64 = self.stats.successful_transfers;
                assert((avg64 as int) * (n64 as int) + (took64 as int) < u128::MAX) by (nonlinear_arith)
                    requires
                        avg64 <= u64::MAX,
                        n64 <= u64::MAX,
                        took64 <= u64::MAX,
                ;
                let total: u128 = (avg64 as u128) * (n64 as u128);
                let new_avg: u128 = (total + (took64 as u128)) / ((n64 as u128) + 1);
                self.stats.average_transfer_time = duration_from_millis(#[verifier::truncate] (new_avg as u64));
                AssetTransferResult {
                    asset_id: transfer.asset_id,
                    asset_type: transfer.asset_type,
                    status: AssetTransferStatus::Success,
                    data: Some(data),
                    error: None,
                    transfer_time,
                }
            },
            Err(error) => {
                if !transfer.has_exceeded_retries() {
                    transfer.increment_retry();
                    return TransferOutcome::Retry { transfer };
                }
                self.stats.failed_transfers = self.stats.failed_transfers + 1;
                AssetTransferResult {
                    asset_id: transfer.asset_id,
                    asset_type: transfer.asset_type,
                    status: AssetTransferStatus::Failed,
                    data: None,
                    error: Some(error),
                    transfer_time,
                }
            },
        };
        let callback = self.take_callback(&transfer.asset_id);
        TransferOutcome::Done { callback, result }
    }

    /// Cancels every trace of a request for `asset_id`: its progress record,
    /// its queued transfers and its callback. Whether it was under way or
    /// queued.
    pub fn cancel_transfer(&mut self, asset_id: &[u8; 16]) -> (r: bool)
        ensures
            r == ((exists|i: int| 0 <= i < old(self).active().len() && old(self).active()[i].asset_id == *asset_id)
                || (exists|i: int| 0 <= i < old(self).queue().len() && old(self).queue()[i].asset_id == *asset_id)),
            final(self).active() == active_without(old(self).active(), *asset_id),
            final(self).queue() == queue_without(old(self).queue(), *asset_id),
            final(self).waiting() == without(old(self).waiting(), *asset_id),
            final(self).counters() == old(self).counters(),
            final(self).cache_state() == old(self).cache_state(),
    {
        let was_active = self.drop_active(asset_id);
        let ghost all = self.transfer_queue@;
        let ghost active_mid = self.active_transfers@;
        let ghost cb_mid = self.callbacks@;
        let mut rest: Vec<QueuedTransfer> = Vec::new();
        std::mem::swap(&mut rest, &mut self.transfer_queue);
        let mut was_queued = false;
        let mut n: usize = 0;
        let total = rest.len();
        while rest.len() > 0
            invariant
                n + rest@.len() == total,
                total == all.len(),
                rest@ == all.skip(n as int),
                self.transfer_queue@ == queue_without(all.take(n as int), *asset_id),
                was_queued == (exists|k: int| 0 <= k < n && all[k].asset_id == *asset_id),
                self.active_transfers@ == active_mid,
                self.callbacks@ == cb_mid,
                self.stats == old(self).stats,
                self.cache == old(self).cache,
                self.config == old(self).config,
            decreases rest.len(),
        {
            let t = rest.remove(0);
            proof {
                assert(t == all[n as int]);
                assert(all.take(n + 1).drop_last() =~= all.take(n as int));
                assert(all.take(n + 1).last() == all[n as int]);
            }
            if ids_equal(&t.asset_id, asset_id) {
                was_queued = true;
            } else {
                self.transfer_queue.push(t);
            }
            n = n + 1;
            assert(rest@ =~= all.skip(n as int));
        }
        assert(all.take(n as int) =~= all);
        let _callback = self.take_callback(asset_id);
        was_active || was_queued
    }
    /// The counters.
    pub fn get_stats(&self) -> (s: TransferStats)
        ensures
            s == self.counters(),
    {
        self.stats
    }

    /// The cache's counters, with its current number of entries.
    pub fn get_cache_stats(&self) -> (s: CacheStats)
        ensures
            s == (CacheStats { cache_entries: self.cached().len() as usize, ..self.cache_counters() }),
    {
        self.cache.stats()
    }

    /// The transfers under way.
    pub fn get_active_transfers(&self) -> (v: Vec<TransferProgress>)
        ensures
            v@ == self.active(),
    {
        let mut v: Vec<TransferProgress> = Vec::new();
        let mut i: usize = 0;
        while i < self.active_transfers.len()
            invariant
                i <= self.active_transfers.len(),
                v@ == self.active_transfers@.take(i as int),
            decreases self.active_transfers.len() - i,
        {
            v.push(self.active_transfers[i]);
            i = i + 1;
            assert(v@ =~= self.active_transfers@.take(i as int));
        }
        assert(self.active_transfers@.take(self.active_transfers.len() as int) =~= self.active_transfers@);
        v
    }

    /// Empties the cache.
    pub fn clear_cache(&mut self)
        requires
            old(self).wf(),
        ensures
            final(self).wf(),
            final(self).cached() == Seq::<CacheEntry>::empty(),
            final(self).cache_capacity() == old(self).cache_capacity(),
            final(self).queue() == old(self).queue(),
            final(self).active() == old(self).active(),
            final(self).waiting() == old(self).waiting(),
            final(self).counters() == old(self).counters(),
    {
        self.cache.clear();
    }

    /// Housekeeping: the cache drops rarely used assets idle for an hour,
    /// the queue drops requests older than five minutes, and only the
    /// transfers in progress stay recorded.
    pub fn maintenance(&mut self)
        requires
            old(self).wf(),
        ensures
            final(self).wf(),
            crate::asset_cache::is_pruned(old(self).cached(), final(self).cached()),
            forall|e: CacheEntry|
                old(self).cached().contains(e) && e.access_count >= 3 ==> final(self).cached().contains(e),
            final(self).cache_capacity() == old(self).cache_capacity(),
            forall|t: QueuedTransfer| #[trigger] final(self).queue().contains(t) ==> old(self).queue().contains(t),
            final(self).active() == in_progress(old(self).active()),
            final(self).waiting() == old(self).waiting(),
            final(self).counters() == old(self).counters(),
    {
        let hour = duration_from_secs(3600);
        self.cache.maintenance(&hour);
        let ghost cache_after = self.cache;
        let max_age = duration_from_secs(300);
        let ghost all = self.transfer_queue@;
        let mut rest: Vec<QueuedTransfer> = Vec::new();
        std::mem::swap(&mut rest, &mut self.transfer_queue);
        let mut n: usize = 0;
        let total = rest.len();
        while rest.len() > 0
            invariant
                n + rest@.len() == total,
                total == all.len(),
                rest@ == all.skip(n as int),
                forall|t: QueuedTransfer| #[trigger] self.transfer_queue@.contains(t) ==> all.contains(t),
                self.cache == cache_after,
                self.active_transfers == old(self).active_transfers,
                self.callbacks == old(self).callbacks,
                self.stats == old(self).stats,
            decreases rest.len(),
        {
            let t = rest.remove(0);
            proof {
                assert(t == all[n as int]);
            }
            let age = t.age();
            if duration_longer(&max_age, &age) {
                let ghost before = self.transfer_queue@;
                self.transfer_queue.push(t);
                proof {
                    assert forall|x: QueuedTransfer| #[trigger] self.transfer_queue@.contains(x) implies all.contains(x) by {
                        if x != t {
                            let k = choose|k: int| 0 <= k < self.transfer_queue@.len() && self.transfer_queue@[k] == x;
                            assert(before[k] == x);
                            assert(before.contains(x));
                        } else {
                            assert(all[n as int] == x);
                        }
                    }
                }
            }
            n = n + 1;
            assert(rest@ =~= all.skip(n as int));
        }
        let ghost act = self.active_transfers@;
        let mut kept: Vec<TransferProgress> = Vec::new();
        let mut i: usize = 0;
        while i < self.active_transfers.len()
            invariant
                i <= self.active_transfers.len(),
                self.active_transfers@ == act,
                kept@ == in_progress(act.take(i as int)),
                self.cache == cache_after,
                self.callbacks == old(self).callbacks,
                self.stats == old(self).stats,
            decreases self.active_transfers.len() - i,
        {
            proof {
                assert(act.take(i + 1).drop_last() =~= act.take(i as int));
                assert(act.take(i + 1).last() == act[i as int]);
            }
            let p = self.active_transfers[i];
            if matches!(p.status, AssetTransferStatus::InProgress) {
                kept.push(p);
            }
            i = i + 1;
        }
        assert(act.take(act.len() as int) =~= act);
        self.active_transfers = kept;
    }
}

impl<C> Default for AssetManager<C> {
    fn default() -> (m: Self)
        ensures
            m.wf(),
            m.queue() == Seq::<QueuedTransfer>::empty(),
            m.active() == Seq::<TransferProgress>::empty(),
            m.waiting() == Seq::<([u8; 16], C)>::empty(),
            m.cached() == Seq::<CacheEntry>::empty(),
            m.cache_capacity() == 100 * 1024 * 1024,
    {
        AssetManager::new(AssetTransferConfig::default())
    }
}

/// Where `insert_pos` puts a transfer of level `lvl`: after every transfer
/// of that level or higher that comes before the first one of lower level.
pub proof fn lemma_insert_pos(q: Seq<QueuedTransfer>, lvl: u8)
    ensures
        0 <= insert_pos(q, lvl) <= q.len(),
        forall|i: int| 0 <= i < insert_pos(q, lvl) ==> priority_level(#[trigger] q[i].priority) >= lvl,
        insert_pos(q, lvl) < q.len() ==> priority_level(q[insert_pos(q, lvl)].priority) < lvl,
    decreases q.len(),
{
    if q.len() > 0 {
        lemma_insert_pos(q.drop_last(), lvl);
        assert forall|i: int| 0 <= i < q.len() - 1 implies #[trigger] q[i] == q.drop_last()[i] by {}
    }
}

/// Requests are queued by priority: a queue that runs from higher to lower
/// priority still does after a request is queued where `request_asset` puts
/// it, which is behind every queued request of its priority or higher and
/// ahead of every one of lower priority.
pub proof fn lemma_queue_stays_by_priority(q: Seq<QueuedTransfer>, t: QueuedTransfer)
    requires
        by_priority(q),
    ensures
        by_priority(q.insert(insert_pos(q, priority_level(t.priority)), t)),
        forall|i: int|
            0 <= i < insert_pos(q, priority_level(t.priority)) ==> priority_level(#[trigger] q[i].priority)
                >= priority_level(t.priority),
        forall|i: int|
            insert_pos(q, priority_level(t.priority)) <= i < q.len() ==> priority_level(#[trigger] q[i].priority)
                < priority_level(t.priority),
{
    let lvl = priority_level(t.priority);
    lemma_insert_pos(q, lvl);
    let p = insert_pos(q, lvl);
    assert forall|i: int| p <= i < q.len() implies priority_level(#[trigger] q[i].priority) < lvl by {
        if i > p {
            assert(priority_level(q[p].priority) >= priority_level(q[i].priority));
        }
    }
    let r = q.insert(p, t);
    assert forall|i: int, j: int| 0 <= i < j < r.len() implies priority_level(r[i].priority) >= priority_level(
        r[j].priority,
    ) by {
        if j < p {
            assert(r[i] == q[i] && r[j] == q[j]);
        } else if j == p {
            assert(r[j] == t);
            assert(r[i] == q[i]);
        } else if i < p {
            assert(r[i] == q[i] && r[j] == q[j - 1]);
        } else if i == p {
            assert(r[i] == t && r[j] == q[j - 1]);
        } else {
            assert(r[i] == q[i - 1] && r[j] == q[j - 1]);
        }
    }
}

/// The head of a queue that runs from higher to lower priority is a request
/// of the highest priority queued: `next_transfer` takes the most urgent
/// request first.
pub proof fn lemma_head_is_most_urgent(q: Seq<QueuedTransfer>)
    requires
        by_priority(q),
        q.len() > 0,
    ensures
        forall|i: int| 0 <= i < q.len() ==> priority_level(#[trigger] q[i].priority) <= priority_level(q[0].priority),
{
}

} // verus!
