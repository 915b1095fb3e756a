//! The session: one playback of one file.
//!
//! A session owns its cache, downloader state, statistics and seek
//! detector.  The asynchronous work around it — origin fetches, waiting on
//! chunk completion, timers — runs outside this crate; every decision a
//! session makes (validation, seek handling, urgent dispatch, assembly,
//! look-ahead sizing) is verified here.  Wall-clock time enters as a
//! caller-supplied monotonic reading in milliseconds.
use vstd::prelude::*;

use crate::cache::DiskCache;
use crate::config::{DEFAULT_PREFETCH_CHUNKS, PRIORITY_BUFFER_SECONDS, SEEK_WINDOW_CHUNKS};
use crate::downloader::{ChunkSlot, Downloader};
use crate::errors::ProxyError;
use crate::geometry::{lemma_chunk_in_file, lemma_offset_in_chunk, spec_chunk_len};
use crate::seek::SeekState;
use crate::source::SourceInfo;
use crate::stats::{spec_sat_add64, StatsCollector, StatsSnapshot};

verus! {

/// What `serve_precheck` decides for a range request.
pub struct ServePlan {
    /// Start of the clamped range.
    pub start: u64,
    /// Exclusive end of the clamped range.
    pub end: u64,
    /// First chunk the range overlaps.
    pub first_chunk: usize,
    /// Last chunk the range overlaps.
    pub last_chunk: usize,
    /// Whether this request was classified as a seek.
    pub is_seek: bool,
}

/// Bytes already cached among the chunks `j..=last` of the span.
pub open spec fn spec_span_cached(cache: DiskCache, j: int, last: int) -> int
    decreases last - j + 1,
{
    if j > last || j < 0 || j >= cache.spec_total() {
        0
    } else {
        (if cache.bits()[j] {
            cache.spec_chunk_len_of(j)
        } else {
            0
        }) + spec_span_cached(cache, j + 1, last)
    }
}

/// A span's cached bytes fit under the content length.
proof fn lemma_span_cached_bound(cache: DiskCache, j: int, last: int)
    requires
        cache.wf(),
        0 <= j,
    ensures
        0 <= spec_span_cached(cache, j, last),
        spec_span_cached(cache, j, last) <= (if cache.spec_content_length() - j
            * cache.spec_chunk_size() >= 0 {
            cache.spec_content_length() - j * cache.spec_chunk_size()
        } else {
            0
        }),
    decreases last - j + 1,
{
    let cl = cache.spec_content_length();
    let cs = cache.spec_chunk_size();
    if j > last || j >= cache.spec_total() {
        if j < cache.spec_total() {
            lemma_chunk_in_file(cl, cs, j);
        }
    } else {
        lemma_span_cached_bound(cache, j + 1, last);
        lemma_chunk_in_file(cl, cs, j);
        assert((j + 1) * cs == j * cs + cs) by (nonlinear_arith);
    }
}

/// The EMA the session keeps of the serve rate: the first observation is
/// taken whole, later ones weighted one part in ten.
pub open spec fn spec_bps_ema(old_bps: u64, range_len: u64) -> u64 {
    if old_bps == 0 {
        if range_len * 8 <= u64::MAX {
            (range_len * 8) as u64
        } else {
            u64::MAX
        }
    } else {
        if (old_bps * 9 + range_len * 8) / 10 <= u64::MAX {
            ((old_bps * 9 + range_len * 8) / 10) as u64
        } else {
            u64::MAX
        }
    }
}

/// How many bytes past the serve end the look-ahead reaches: two minutes
/// at the estimated rate, or twenty chunks before a rate exists.
pub open spec fn spec_prefetch_bytes(bps: u64, chunk_size: u64) -> int {
    if bps > 0 {
        bps * PRIORITY_BUFFER_SECONDS
    } else {
        chunk_size * DEFAULT_PREFETCH_CHUNKS
    }
}

/// The chunk just past the look-ahead horizon, clamped to the grid.
pub open spec fn spec_prefetch_past_chunk(
    end: u64,
    bps: u64,
    chunk_size: u64,
    content_length: u64,
    total: int,
) -> int
    recommends
        chunk_size > 0,
{
    let horizon = if end + spec_prefetch_bytes(bps, chunk_size) < content_length {
        end + spec_prefetch_bytes(bps, chunk_size)
    } else {
        content_length as int
    };
    let past = if horizon % chunk_size as int == 0 {
        horizon / chunk_size as int
    } else {
        horizon / chunk_size as int + 1
    };
    if past < total {
        past
    } else {
        total
    }
}

/// The chunks the session eagerly prefetches at construction: the head
/// chunk and the last four.
pub open spec fn spec_initial_target(total: int, i: int) -> bool {
    i == 0 || (total - 4 <= i < total)
}

/// The state of one playback of one file.
pub struct Session {
    session_id: String,
    info: SourceInfo,
    chunk_size: u64,
    cache: DiskCache,
    downloader: Downloader,
    stats: StatsCollector,
    seek: SeekState,
    playback_offset: u64,
    playback_bps: u64,
}

impl Session {
    pub closed spec fn spec_cache(self) -> DiskCache {
        self.cache
    }

    pub closed spec fn spec_downloader(self) -> Downloader {
        self.downloader
    }

    pub closed spec fn spec_stats(self) -> StatsCollector {
        self.stats
    }

    pub closed spec fn spec_seek(self) -> SeekState {
        self.seek
    }

    pub closed spec fn spec_session_id(self) -> Seq<char> {
        self.session_id@
    }

    pub closed spec fn spec_content_length(self) -> u64 {
        self.info.content_length
    }

    pub closed spec fn spec_content_type(self) -> Seq<char> {
        self.info.content_type@
    }

    pub closed spec fn spec_chunk_size(self) -> u64 {
        self.chunk_size
    }

    pub closed spec fn spec_playback_offset(self) -> u64 {
        self.playback_offset
    }

    pub closed spec fn spec_playback_bps(self) -> u64 {
        self.playback_bps
    }

    /// Number of chunks in the session's grid.
    pub open spec fn spec_total(self) -> int {
        self.spec_cache().spec_total()
    }

    /// A session is sound when its cache is, its downloader tracks one
    /// slot per chunk, and its geometry fields agree with the cache.
    pub open spec fn wf(self) -> bool {
        &&& self.spec_cache().wf()
        &&& self.spec_downloader().slots().len() == self.spec_cache().spec_total()
        &&& self.spec_stats().wf()
        &&& self.spec_chunk_size() == self.spec_cache().spec_chunk_size()
        &&& self.spec_content_length() == self.spec_cache().spec_content_length()
        &&& self.spec_content_length() > 0
    }

    /// Build a session from a completed probe.
    ///
    /// Rejects with `Unsupported` exactly when the probe reports zero
    /// length or no range support; a zero chunk size or an unaddressable
    /// length is an internal failure.  A fresh session has an empty cache,
    /// an idle downloader sized by `effective_concurrency`, zeroed
    /// statistics, seek detection warming up, and playback at offset zero.
    pub fn new(
        session_id: String,
        info: SourceInfo,
        chunk_size: u64,
        effective_concurrency: u32,
        now_ms: u64,
    ) -> (r: Result<Session, ProxyError>)
        ensures
            r is Ok <==> (info.content_length > 0 && info.supports_range && chunk_size > 0
                && info.content_length <= usize::MAX as u64),
            (info.content_length == 0 || !info.supports_range) <==> (r is Err && r->Err_0
                == ProxyError::Unsupported),
            r is Err ==> (r->Err_0 == ProxyError::Unsupported || r->Err_0
                == ProxyError::Internal),
            r is Ok ==> ({
                let s = r->Ok_0;
                &&& s.wf()
                &&& s.spec_session_id() == session_id@
                &&& s.spec_content_length() == info.content_length
                &&& s.spec_content_type() == info.content_type@
                &&& s.spec_chunk_size() == chunk_size
                &&& forall|i: int| 0 <= i < s.spec_total() ==> !s.spec_cache().bits()[i]
                &&& forall|i: int|
                    0 <= i < s.spec_total() ==> s.spec_downloader().slots()[i] is Vacant
                &&& !s.spec_downloader().spec_shutdown()
                &&& s.spec_downloader().spec_background_permits() == (if effective_concurrency
                    > 3 {
                    effective_concurrency - 2
                } else {
                    1int
                })
                &&& s.spec_stats().spec_download_total() == 0
                &&& s.spec_stats().spec_requested_bytes() == 0
                &&& !s.spec_seek().spec_enabled()
                &&& s.spec_seek().spec_warmup_start_ms() == now_ms
                &&& s.spec_playback_offset() == 0
                &&& s.spec_playback_bps() == 0
            }),
    {
        if info.content_length == 0 || !info.supports_range {
            return Err(ProxyError::Unsupported);
        }
        let cache = match DiskCache::new(info.content_length, chunk_size) {
            Ok(c) => c,
            Err(e) => {
                return Err(e);
            },
        };
        let total = cache.total_chunks();
        let downloader = Downloader::new(total, effective_concurrency);
        let stats = StatsCollector::new(now_ms);
        let seek = SeekState::new(now_ms);
        Ok(
            Session {
                session_id,
                info,
                chunk_size,
                cache,
                downloader,
                stats,
                seek,
                playback_offset: 0,
                playback_bps: 0,
            },
        )
    }

    /// Eagerly schedule the head chunk and the tail four chunks, where
    /// MP4 files commonly keep their index.  Returns the chunk indices
    /// whose fetch tasks are to be spawned, without duplicates: exactly
    /// the initial targets that may spawn.
    pub fn initial_prefetch(&mut self) -> (spawned: Vec<usize>)
        requires
            old(self).wf(),
        ensures
            final(self).wf(),
            final(self).spec_cache() == old(self).spec_cache(),
            final(self).spec_stats() == old(self).spec_stats(),
            final(self).spec_seek() == old(self).spec_seek(),
            final(self).spec_playback_offset() == old(self).spec_playback_offset(),
            final(self).spec_playback_bps() == old(self).spec_playback_bps(),
            final(self).spec_downloader().spec_shutdown() == old(
                self,
            ).spec_downloader().spec_shutdown(),
            final(self).spec_downloader().slots().len() == old(
                self,
            ).spec_downloader().slots().len(),
            forall|j: int|
                #![trigger final(self).spec_downloader().slots()[j]]
                0 <= j < old(self).spec_total() ==> final(self).spec_downloader().slots()[j] == (
                if spec_initial_target(old(self).spec_total(), j) && old(
                    self,
                ).spec_downloader().spec_may_spawn(old(self).spec_cache(), j) {
                    ChunkSlot::Active { cancel_requested: false }
                } else {
                    old(self).spec_downloader().slots()[j]
                }),
            forall|k: int|
                0 <= k < spawned@.len() ==> spec_initial_target(
                    old(self).spec_total(),
                    #[trigger] spawned@[k] as int,
                ) && old(self).spec_downloader().spec_may_spawn(
                    old(self).spec_cache(),
                    spawned@[k] as int,
                ),
            forall|j: int|
                spec_initial_target(old(self).spec_total(), j) && old(
                    self,
                ).spec_downloader().spec_may_spawn(old(self).spec_cache(), j) ==> spawned@
                    .contains(j as usize),
            forall|k1: int, k2: int|
                0 <= k1 < k2 < spawned@.len() ==> spawned@[k1] != spawned@[k2],
    {
        let total = self.cache.total_chunks();
        let mut spawned: Vec<usize> = Vec::new();
        let did0 = self.downloader.start_prefetch(&self.cache, 0);
        if did0 {
            spawned.push(0);
            proof {
                assert(spawned@[0] == 0usize);
            }
        }
        let tail_start = if total > 4 {
            total - 4
        } else {
            0
        };
        let mut i = tail_start;
        while i < total
            invariant
                old(self).wf(),
                total == old(self).spec_total(),
                tail_start == (if total > 4 {
                    total - 4int
                } else {
                    0int
                }),
                tail_start <= i <= total,
                self.cache == old(self).spec_cache(),
                self.stats == old(self).spec_stats(),
                self.seek == old(self).spec_seek(),
                self.info == old(self).info,
                self.session_id == old(self).session_id,
                self.chunk_size == old(self).spec_chunk_size(),
                self.playback_offset == old(self).spec_playback_offset(),
                self.playback_bps == old(self).spec_playback_bps(),
                self.downloader.spec_shutdown() == old(self).spec_downloader().spec_shutdown(),
                self.downloader.spec_urgent_permits() == old(
                    self,
                ).spec_downloader().spec_urgent_permits(),
                self.downloader.spec_background_permits() == old(
                    self,
                ).spec_downloader().spec_background_permits(),
                self.downloader.spec_max_retries() == old(
                    self,
                ).spec_downloader().spec_max_retries(),
                self.downloader.slots().len() == old(self).spec_downloader().slots().len(),
                forall|j: int|
                    0 <= j < total ==> #[trigger] self.downloader.slots()[j] == (if (j == 0
                        || tail_start <= j < i) && old(self).spec_downloader().spec_may_spawn(
                        old(self).spec_cache(),
                        j,
                    ) {
                        ChunkSlot::Active { cancel_requested: false }
                    } else {
                        old(self).spec_downloader().slots()[j]
                    }),
                forall|k: int|
                    0 <= k < spawned@.len() ==> (#[trigger] spawned@[k] == 0usize || tail_start
                        <= spawned@[k] < i) && old(self).spec_downloader().spec_may_spawn(
                        old(self).spec_cache(),
                        spawned@[k] as int,
                    ),
                forall|j: int|
                    (j == 0 || tail_start <= j < i) && old(
                        self,
                    ).spec_downloader().spec_may_spawn(old(self).spec_cache(), j) ==> spawned@
                        .contains(j as usize),
                forall|k1: int, k2: int|
                    0 <= k1 < k2 < spawned@.len() ==> spawned@[k1] != spawned@[k2],
            decreases total - i,
        {
            proof {
                assert(self.downloader.slots()[i as int] == (if (i == 0) && old(
                    self,
                ).spec_downloader().spec_may_spawn(old(self).spec_cache(), i as int) {
                    ChunkSlot::Active { cancel_requested: false }
                } else {
                    old(self).spec_downloader().slots()[i as int]
                }));
            }
            let ghost pre = self.downloader;
            let ghost pre_spawned = spawned@;
            let did = self.downloader.start_prefetch(&self.cache, i);
            if did {
                spawned.push(i);
            }
            proof {
                assert forall|j: int|
                    (j == 0 || tail_start <= j < i + 1) && old(
                        self,
                    ).spec_downloader().spec_may_spawn(
                        old(self).spec_cache(),
                        j,
                    ) implies spawned@.contains(j as usize) by {
                    if j == 0 || j < i {
                        let k = choose|k: int|
                            0 <= k < pre_spawned.len() && pre_spawned[k] == j as usize;
                        assert(spawned@[k] == j as usize);
                    } else {
                        assert(spawned@[spawned@.len() - 1] == j as usize);
                    }
                }
            }
            i += 1;
        }
        spawned
    }

    /// The session's identifier.
    pub fn id(&self) -> (r: &String)
        ensures
            r@ == self.spec_session_id(),
    {
        &self.session_id
    }

    /// Total content length in bytes.
    pub fn content_length(&self) -> (r: u64)
        ensures
            r == self.spec_content_length(),
    {
        self.info.content_length
    }

    /// The content type the probe reported.
    pub fn content_type(&self) -> (r: &str)
        ensures
            r@ == self.spec_content_type(),
    {
        self.info.content_type.as_str()
    }

    /// The smoothed serve-rate estimate, bits per second.
    pub fn playback_bps(&self) -> (r: u64)
        ensures
            r == self.spec_playback_bps(),
    {
        self.playback_bps
    }

    /// The session's cache, for reads.
    pub fn cache(&self) -> (r: &DiskCache)
        ensures
            *r == self.spec_cache(),
    {
        &self.cache
    }

    /// The downloader's scheduling state, for inspection.
    pub fn downloader_state(&self) -> (r: &Downloader)
        ensures
            *r == self.spec_downloader(),
    {
        &self.downloader
    }

    /// Commit a fetched chunk: store it and count the downloaded bytes.
    pub fn commit_chunk(&mut self, chunk_index: usize, data: &[u8]) -> (r: Result<
        (),
        ProxyError,
    >)
        requires
            old(self).wf(),
        ensures
            final(self).wf(),
            r is Err <==> !(chunk_index < old(self).spec_total() && data@.len()
                == spec_chunk_len(
                old(self).spec_content_length(),
                old(self).spec_chunk_size(),
                chunk_index as int,
            )),
            r is Err ==> *final(self) == *old(self) && r->Err_0 == ProxyError::InvalidRange,
            r is Ok ==> final(self).spec_cache().bits() == old(self).spec_cache().bits().update(
                chunk_index as int,
                true,
            ),
            r is Ok ==> final(self).spec_cache().contents() == crate::cache::seq_splice(
                old(self).spec_cache().contents(),
                chunk_index as int * old(self).spec_chunk_size(),
                data@,
            ),
            r is Ok ==> final(self).spec_stats().spec_download_total() == spec_sat_add64(
                old(self).spec_stats().spec_download_total(),
                data@.len() as u64,
            ),
            final(self).spec_chunk_size() == old(self).spec_chunk_size(),
            final(self).spec_content_length() == old(self).spec_content_length(),
            final(self).spec_cache().spec_chunk_size() == old(self).spec_cache().spec_chunk_size(),
            final(self).spec_cache().spec_content_length() == old(
                self,
            ).spec_cache().spec_content_length(),
            final(self).spec_downloader() == old(self).spec_downloader(),
            final(self).spec_seek() == old(self).spec_seek(),
            final(self).spec_playback_offset() == old(self).spec_playback_offset(),
            final(self).spec_playback_bps() == old(self).spec_playback_bps(),
    {
        match self.cache.put_chunk(chunk_index, data) {
            Ok(()) => {
                self.stats.record_downloaded(data.len() as u64);
                Ok(())
            },
            Err(e) => Err(e),
        }
    }

    /// A fetch task ended: vacate the chunk's slot (no-op if vacant).
    pub fn finish_fetch_task(&mut self, chunk_index: usize)
        requires
            old(self).wf(),
        ensures
            final(self).wf(),
            final(self).spec_downloader().slots() == (if chunk_index < old(
                self,
            ).spec_downloader().slots().len() && old(
                self,
            ).spec_downloader().slots()[chunk_index as int] is Active {
                old(self).spec_downloader().slots().update(chunk_index as int, ChunkSlot::Vacant)
            } else {
                old(self).spec_downloader().slots()
            }),
            final(self).spec_downloader().spec_shutdown() == old(
                self,
            ).spec_downloader().spec_shutdown(),
            final(self).spec_cache() == old(self).spec_cache(),
            final(self).spec_stats() == old(self).spec_stats(),
            final(self).spec_seek() == old(self).spec_seek(),
            final(self).spec_playback_offset() == old(self).spec_playback_offset(),
            final(self).spec_playback_bps() == old(self).spec_playback_bps(),
    {
        if chunk_index < self.downloader_len() {
            match self.downloader_slot(chunk_index) {
                ChunkSlot::Active { .. } => {
                    self.downloader.finish_fetch(chunk_index);
                },
                ChunkSlot::Vacant => {},
            }
        }
    }

    /// Length of the downloader's slot table.
    fn downloader_len(&self) -> (r: usize)
        ensures
            r == self.spec_downloader().slots().len(),
    {
        self.downloader.slot_count()
    }

    /// One slot's state.
    fn downloader_slot(&self, i: usize) -> (r: ChunkSlot)
        requires
            i < self.spec_downloader().slots().len(),
        ensures
            r == self.spec_downloader().slots()[i as int],
    {
        self.downloader.slot_at(i)
    }

    /// Plan a wait on one chunk: done already, or await after ensuring a
    /// background fetch.
    pub fn wait_plan(&mut self, chunk_index: usize) -> (r: (bool, bool))
        requires
            old(self).wf(),
        ensures
            final(self).wf(),
            r.0 == (chunk_index < old(self).spec_total() && old(
                self,
            ).spec_cache().bits()[chunk_index as int]),
            !r.0 && r.1 ==> final(self).spec_downloader().slots() == old(
                self,
            ).spec_downloader().slots().update(
                chunk_index as int,
                ChunkSlot::Active { cancel_requested: false },
            ),
            (r.0 || !r.1) ==> final(self).spec_downloader().slots() == old(
                self,
            ).spec_downloader().slots(),
            final(self).spec_downloader().spec_shutdown() == old(
                self,
            ).spec_downloader().spec_shutdown(),
            final(self).spec_cache() == old(self).spec_cache(),
            final(self).spec_stats() == old(self).spec_stats(),
            final(self).spec_seek() == old(self).spec_seek(),
            final(self).spec_playback_offset() == old(self).spec_playback_offset(),
            final(self).spec_playback_bps() == old(self).spec_playback_bps(),
    {
        self.downloader.wait_for_chunk_plan(&self.cache, chunk_index)
    }

    /// Capture a statistics snapshot: the stats counters plus the bytes
    /// buffered ahead of the playback offset.
    pub fn snapshot(&mut self, now_ms: u64) -> (r: StatsSnapshot)
        requires
            old(self).wf(),
        ensures
            final(self).wf(),
            r.buffered_bytes_ahead == old(self).spec_cache().spec_buffered_ahead(
                old(self).spec_playback_offset(),
            ),
            r.active_workers == old(self).spec_stats().spec_active_workers(),
            r.requested_bytes == old(self).spec_stats().spec_requested_bytes(),
            r.cache_hit_bytes == old(self).spec_stats().spec_cache_hit_bytes(),
            final(self).spec_cache() == old(self).spec_cache(),
            final(self).spec_downloader() == old(self).spec_downloader(),
            final(self).spec_seek() == old(self).spec_seek(),
            final(self).spec_playback_offset() == old(self).spec_playback_offset(),
            final(self).spec_playback_bps() == old(self).spec_playback_bps(),
            final(self).spec_session_id() == old(self).spec_session_id(),
            final(self).spec_content_type() == old(self).spec_content_type(),
            final(self).spec_content_length() == old(self).spec_content_length(),
            final(self).spec_chunk_size() == old(self).spec_chunk_size(),
    {
        let buffered = self.cache.buffered_bytes_ahead(self.playback_offset);
        self.stats.snapshot(now_ms, buffered)
    }

    /// Count one more active fetch worker.
    pub fn worker_started(&mut self)
        requires
            old(self).wf(),
        ensures
            final(self).wf(),
            final(self).spec_stats().spec_active_workers() == (if old(
                self,
            ).spec_stats().spec_active_workers() < u32::MAX {
                old(self).spec_stats().spec_active_workers() + 1
            } else {
                u32::MAX as int
            }),
            final(self).spec_cache() == old(self).spec_cache(),
            final(self).spec_downloader() == old(self).spec_downloader(),
            final(self).spec_seek() == old(self).spec_seek(),
    {
        self.stats.increment_workers();
    }

    /// Count one fetch worker released.
    pub fn worker_finished(&mut self)
        requires
            old(self).wf(),
        ensures
            final(self).wf(),
            final(self).spec_stats().spec_active_workers() == (if old(
                self,
            ).spec_stats().spec_active_workers() > 0 {
                old(self).spec_stats().spec_active_workers() - 1
            } else {
                0int
            }),
            final(self).spec_cache() == old(self).spec_cache(),
            final(self).spec_downloader() == old(self).spec_downloader(),
            final(self).spec_seek() == old(self).spec_seek(),
    {
        self.stats.decrement_workers();
    }

    /// Validate and register a range request `[start, end)`.
    ///
    /// The end is clamped to the content length; an empty result rejects
    /// the request.  Otherwise the playback offset moves to `start`; a
    /// request classified as a seek cancels all fetch work outside a
    /// 32-chunk window at the target and restarts the seek warmup; and the
    /// request is counted against the cache-hit statistics, crediting the
    /// bytes of already-complete chunks in the span (capped by the
    /// request's own length).
    pub fn serve_precheck(&mut self, start: u64, end: u64, now_ms: u64) -> (r: Result<
        ServePlan,
        ProxyError,
    >)
        requires
            old(self).wf(),
        ensures
            final(self).wf(),
            ({
                let cend = if end < old(self).spec_content_length() {
                    end as int
                } else {
                    old(self).spec_content_length() as int
                };
                &&& (r is Err <==> start >= cend)
                &&& (r is Err ==> *final(self) == *old(self) && r->Err_0
                    == ProxyError::InvalidRange)
                &&& (r is Ok ==> ({
                    let plan = r->Ok_0;
                    let cs = old(self).spec_chunk_size() as int;
                    let first = start as int / cs;
                    let last = (cend - 1) / cs;
                    let window_past = if first + SEEK_WINDOW_CHUNKS < old(self).spec_total() {
                        first + SEEK_WINDOW_CHUNKS
                    } else {
                        old(self).spec_total()
                    };
                    &&& plan.start == start
                    &&& plan.end == cend
                    &&& plan.first_chunk == first
                    &&& plan.last_chunk == last
                    &&& plan.is_seek == old(self).spec_seek().spec_is_seek(start)
                    &&& final(self).spec_playback_offset() == start
                    &&& final(self).spec_cache() == old(self).spec_cache()
                    &&& final(self).spec_playback_bps() == old(self).spec_playback_bps()
                    &&& final(self).spec_stats().spec_requested_bytes() == spec_sat_add64(
                        old(self).spec_stats().spec_requested_bytes(),
                        (cend - start) as u64,
                    )
                    &&& final(self).spec_stats().spec_cache_hit_bytes() == spec_sat_add64(
                        old(self).spec_stats().spec_cache_hit_bytes(),
                        (if spec_span_cached(old(self).spec_cache(), first, last) < cend - start {
                            spec_span_cached(old(self).spec_cache(), first, last)
                        } else {
                            cend - start
                        }) as u64,
                    )
                    &&& final(self).spec_stats().spec_download_total() == old(
                        self,
                    ).spec_stats().spec_download_total()
                    &&& final(self).spec_stats().spec_serve_total() == old(
                        self,
                    ).spec_stats().spec_serve_total()
                    &&& final(self).spec_stats().spec_active_workers() == old(
                        self,
                    ).spec_stats().spec_active_workers()
                    &&& (plan.is_seek ==> {
                        &&& !final(self).spec_seek().spec_enabled()
                        &&& final(self).spec_seek().spec_warmup_start_ms() == now_ms
                        &&& final(self).spec_seek().spec_request_count() == 0
                        &&& final(self).spec_seek().spec_sequential_hits() == 0
                        &&& final(self).spec_seek().spec_last_offset() == old(
                            self,
                        ).spec_seek().spec_last_offset()
                    })
                    &&& (!plan.is_seek ==> final(self).spec_seek() == old(self).spec_seek())
                    &&& (!plan.is_seek ==> final(self).spec_downloader() == old(
                        self,
                    ).spec_downloader())
                    &&& (plan.is_seek ==> (forall|j: int|
                        #![trigger final(self).spec_downloader().slots()[j]]
                        0 <= j < old(self).spec_total() ==> final(self).spec_downloader().slots()[j] == (if (j < first || j >= window_past)
                            && old(self).spec_downloader().slots()[j] is Active {
                            ChunkSlot::Active { cancel_requested: true }
                        } else {
                            old(self).spec_downloader().slots()[j]
                        })))
                    &&& (plan.is_seek ==> final(self).spec_downloader().spec_shutdown() == old(
                        self,
                    ).spec_downloader().spec_shutdown())
                }))
            }),
    {
        let cend = if end < self.info.content_length {
            end
        } else {
            self.info.content_length
        };
        if start >= cend {
            return Err(ProxyError::InvalidRange);
        }
        self.playback_offset = start;
        let is_seek = self.seek.is_seek(start);
        proof {
            lemma_offset_in_chunk(self.info.content_length, self.chunk_size, start);
            lemma_offset_in_chunk(self.info.content_length, self.chunk_size, (cend - 1) as u64);
            vstd::arithmetic::div_mod::lemma_div_is_ordered(
                start as int,
                (cend - 1) as int,
                self.chunk_size as int,
            );
        }
        let first = (start / self.chunk_size) as usize;
        let last = ((cend - 1) / self.chunk_size) as usize;
        if is_seek {
            let total = self.cache.total_chunks();
            let window_past = if total - first > SEEK_WINDOW_CHUNKS {
                first + SEEK_WINDOW_CHUNKS
            } else {
                total
            };
            self.downloader.abort_outside_window(first, window_past);
            self.seek.reset_warmup(now_ms);
        }
        let mut cached: u64 = 0;
        let mut i = first;
        proof {
            lemma_span_cached_bound(self.cache, first as int, last as int);
        }
        while i <= last
            invariant
                self.cache.wf(),
                first <= i <= last + 1,
                last < self.cache.spec_total(),
                cached == spec_span_cached(self.cache, first as int, last as int)
                    - spec_span_cached(self.cache, i as int, last as int),
                spec_span_cached(self.cache, first as int, last as int)
                    <= self.cache.spec_content_length(),
            decreases last + 1 - i,
        {
            proof {
                lemma_span_cached_bound(self.cache, i as int, last as int);
                lemma_span_cached_bound(self.cache, i as int + 1, last as int);
            }
            if self.cache.has_chunk(i) {
                let l = self.cache.chunk_len(i);
                cached = cached + l as u64;
            }
            i += 1;
        }
        let range_len = cend - start;
        let hit = if cached < range_len {
            cached
        } else {
            range_len
        };
        self.stats.record_request(range_len, hit);
        Ok(ServePlan { start, end: cend, first_chunk: first, last_chunk: last, is_seek })
    }

    /// Dispatch urgent fetches for every chunk of the serve span
    /// `[first_chunk, last_chunk]`: each chunk that may spawn is occupied
    /// and listed, in increasing order, for the caller to run under the
    /// urgent permit pool.
    pub fn dispatch_urgent(&mut self, first_chunk: usize, last_chunk: usize) -> (spawned: Vec<
        usize,
    >)
        requires
            old(self).wf(),
            first_chunk <= last_chunk,
            last_chunk < old(self).spec_total(),
        ensures
            final(self).wf(),
            final(self).spec_cache() == old(self).spec_cache(),
            final(self).spec_stats() == old(self).spec_stats(),
            final(self).spec_seek() == old(self).spec_seek(),
            final(self).spec_playback_offset() == old(self).spec_playback_offset(),
            final(self).spec_playback_bps() == old(self).spec_playback_bps(),
            final(self).spec_downloader().spec_shutdown() == old(
                self,
            ).spec_downloader().spec_shutdown(),
            forall|j: int|
                #![trigger final(self).spec_downloader().slots()[j]]
                0 <= j < old(self).spec_total() ==> final(self).spec_downloader().slots()[j] == (
                if first_chunk <= j <= last_chunk && old(self).spec_downloader().spec_may_spawn(
                    old(self).spec_cache(),
                    j,
                ) {
                    ChunkSlot::Active { cancel_requested: false }
                } else {
                    old(self).spec_downloader().slots()[j]
                }),
            forall|k: int|
                0 <= k < spawned@.len() ==> first_chunk <= #[trigger] spawned@[k] <= last_chunk
                    && old(self).spec_downloader().spec_may_spawn(
                    old(self).spec_cache(),
                    spawned@[k] as int,
                ),
            forall|k1: int, k2: int|
                0 <= k1 < k2 < spawned@.len() ==> spawned@[k1] < spawned@[k2],
            forall|j: int|
                first_chunk <= j <= last_chunk && old(self).spec_downloader().spec_may_spawn(
                    old(self).spec_cache(),
                    j,
                ) ==> spawned@.contains(j as usize),
    {
        let mut spawned: Vec<usize> = Vec::new();
        let mut i = first_chunk;
        while i <= last_chunk
            invariant
                old(self).wf(),
                first_chunk <= i <= last_chunk + 1,
                last_chunk < old(self).spec_total(),
                self.cache == old(self).spec_cache(),
                self.stats == old(self).spec_stats(),
                self.seek == old(self).spec_seek(),
                self.info == old(self).info,
                self.session_id == old(self).session_id,
                self.chunk_size == old(self).spec_chunk_size(),
                self.playback_offset == old(self).spec_playback_offset(),
                self.playback_bps == old(self).spec_playback_bps(),
                self.downloader.spec_shutdown() == old(self).spec_downloader().spec_shutdown(),
                self.downloader.spec_urgent_permits() == old(
                    self,
                ).spec_downloader().spec_urgent_permits(),
                self.downloader.spec_background_permits() == old(
                    self,
                ).spec_downloader().spec_background_permits(),
                self.downloader.spec_max_retries() == old(
                    self,
                ).spec_downloader().spec_max_retries(),
                self.downloader.slots().len() == old(self).spec_downloader().slots().len(),
                forall|j: int|
                    #![trigger self.downloader.slots()[j]]
                    0 <= j < old(self).spec_total() ==> self.downloader.slots()[j] == (if
                    first_chunk <= j < i && old(self).spec_downloader().spec_may_spawn(
                        old(self).spec_cache(),
                        j,
                    ) {
                        ChunkSlot::Active { cancel_requested: false }
                    } else {
                        old(self).spec_downloader().slots()[j]
                    }),
                forall|k: int|
                    0 <= k < spawned@.len() ==> first_chunk <= #[trigger] spawned@[k] < i && old(
                        self,
                    ).spec_downloader().spec_may_spawn(
                        old(self).spec_cache(),
                        spawned@[k] as int,
                    ),
                forall|k1: int, k2: int|
                    0 <= k1 < k2 < spawned@.len() ==> spawned@[k1] < spawned@[k2],
                forall|j: int|
                    first_chunk <= j < i && old(self).spec_downloader().spec_may_spawn(
                        old(self).spec_cache(),
                        j,
                    ) ==> spawned@.contains(j as usize),
            decreases last_chunk + 1 - i,
        {
            proof {
                assert(self.downloader.slots()[i as int] == old(
                    self,
                ).spec_downloader().slots()[i as int]);
            }
            let ghost pre_spawned = spawned@;
            let did = self.downloader.start_urgent_prefetch(&self.cache, i);
            if did {
                spawned.push(i);
            }
            proof {
                assert forall|j: int|
                    first_chunk <= j < i + 1 && old(self).spec_downloader().spec_may_spawn(
                        old(self).spec_cache(),
                        j,
                    ) implies spawned@.contains(j as usize) by {
                    if j < i {
                        let k = choose|k: int|
                            0 <= k < pre_spawned.len() && pre_spawned[k] == j as usize;
                        assert(spawned@[k] == j as usize);
                    } else {
                        assert(spawned@[spawned@.len() - 1] == j as usize);
                    }
                }
            }
            i += 1;
        }
        spawned
    }

    /// Decide background prefetch for every chunk in `[first, past)`,
    /// clamped to the grid; returns the chunks whose fetch tasks are to be
    /// spawned.
    pub fn prefetch_span(&mut self, first: usize, past: usize) -> (spawned: Vec<usize>)
        requires
            old(self).wf(),
        ensures
            final(self).wf(),
            final(self).spec_cache() == old(self).spec_cache(),
            final(self).spec_stats() == old(self).spec_stats(),
            final(self).spec_seek() == old(self).spec_seek(),
            final(self).spec_playback_offset() == old(self).spec_playback_offset(),
            final(self).spec_playback_bps() == old(self).spec_playback_bps(),
            final(self).spec_downloader().spec_shutdown() == old(
                self,
            ).spec_downloader().spec_shutdown(),
            forall|j: int|
                #![trigger final(self).spec_downloader().slots()[j]]
                0 <= j < old(self).spec_total() ==> final(self).spec_downloader().slots()[j] == (
                if first <= j < past && old(self).spec_downloader().spec_may_spawn(
                    old(self).spec_cache(),
                    j,
                ) {
                    ChunkSlot::Active { cancel_requested: false }
                } else {
                    old(self).spec_downloader().slots()[j]
                }),
            forall|k: int|
                0 <= k < spawned@.len() ==> first <= #[trigger] spawned@[k] < past && old(
                    self,
                ).spec_downloader().spec_may_spawn(old(self).spec_cache(), spawned@[k] as int),
            forall|j: int|
                first <= j < past && old(self).spec_downloader().spec_may_spawn(
                    old(self).spec_cache(),
                    j,
                ) ==> spawned@.contains(j as usize),
    {
        self.downloader.prefetch_range(&self.cache, first, past)
    }

    /// The slice of chunk `chunk_index` that falls inside the serve range
    /// `[start, end)`: nothing when the chunk lies outside the range, the
    /// slice's bytes when it is readable, and a cache miss when the chunk
    /// (still) is not complete.
    pub fn read_chunk_slice(&self, chunk_index: usize, start: u64, end: u64) -> (r: Result<
        Option<Vec<u8>>,
        ProxyError,
    >)
        requires
            self.wf(),
            chunk_index < self.spec_total(),
            start < end <= self.spec_content_length(),
        ensures
            ({
                let cs = self.spec_chunk_size() as int;
                let cstart = chunk_index as int * cs;
                let cend = cstart + self.spec_cache().spec_chunk_len_of(chunk_index as int);
                let lo = if start > cstart {
                    start as int
                } else {
                    cstart
                };
                let hi = if end < cend {
                    end as int
                } else {
                    cend
                };
                &&& (lo >= hi <==> r == Result::<Option<Vec<u8>>, ProxyError>::Ok(None))
                &&& (lo < hi && self.spec_cache().spec_range_ready(lo, hi) <==> (r is Ok
                    && r->Ok_0 is Some))
                &&& (r is Ok && r->Ok_0 is Some ==> r->Ok_0->Some_0@
                    == self.spec_cache().contents().subrange(lo, hi))
                &&& (r is Err <==> (lo < hi && !self.spec_cache().spec_range_ready(lo, hi)))
                &&& (r is Err ==> r->Err_0 == ProxyError::CacheMiss)
            }),
    {
        proof {
            lemma_chunk_in_file(
                self.cache.spec_content_length(),
                self.cache.spec_chunk_size(),
                chunk_index as int,
            );
        }
        let cstart = chunk_index as u64 * self.chunk_size;
        let clen = self.cache.chunk_len(chunk_index);
        let cend = cstart + clen as u64;
        let lo = if start > cstart {
            start
        } else {
            cstart
        };
        let hi = if end < cend {
            end
        } else {
            cend
        };
        if lo >= hi {
            return Ok(None);
        }
        match self.cache.read_range(lo, hi) {
            Some(data) => Ok(Some(data)),
            None => Err(ProxyError::CacheMiss),
        }
    }

    /// Assemble a validated range once its chunks were awaited, then plan
    /// the look-ahead.
    ///
    /// Fails with a cache miss exactly when some chunk of the span is
    /// still incomplete, leaving the session unchanged.  On success the
    /// range's bytes are returned together with the chunks spawned for
    /// background look-ahead, which reaches `PRIORITY_BUFFER_SECONDS` at
    /// the estimated rate past the range (twenty chunks before a rate
    /// exists); the serve is counted, the seek detector records the
    /// request, and the rate estimate is smoothed toward this serve.
    pub fn finish_serve(&mut self, start: u64, end: u64, was_seek: bool, now_ms: u64) -> (r:
        Result<(Vec<u8>, Vec<usize>), ProxyError>)
        requires
            old(self).wf(),
            start < end <= old(self).spec_content_length(),
        ensures
            final(self).wf(),
            final(self).spec_cache() == old(self).spec_cache(),
            r is Err <==> !old(self).spec_cache().spec_range_ready(start as int, end as int),
            r is Err ==> r->Err_0 == ProxyError::CacheMiss && *final(self) == *old(self),
            r is Ok ==> ({
                let data = r->Ok_0.0;
                let spawned = r->Ok_0.1;
                let cs = old(self).spec_chunk_size() as int;
                let past_chunk = spec_prefetch_past_chunk(
                    end,
                    old(self).spec_playback_bps(),
                    old(self).spec_chunk_size(),
                    old(self).spec_content_length(),
                    old(self).spec_total(),
                );
                let next_chunk = (end - 1) as int / cs + 1;
                &&& data@ == old(self).spec_cache().contents().subrange(start as int, end as int)
                &&& data@.len() == end - start
                &&& final(self).spec_stats().spec_serve_total() == spec_sat_add64(
                    old(self).spec_stats().spec_serve_total(),
                    (end - start) as u64,
                )
                &&& final(self).spec_stats().spec_download_total() == old(
                    self,
                ).spec_stats().spec_download_total()
                &&& final(self).spec_stats().spec_requested_bytes() == old(
                    self,
                ).spec_stats().spec_requested_bytes()
                &&& final(self).spec_stats().spec_cache_hit_bytes() == old(
                    self,
                ).spec_stats().spec_cache_hit_bytes()
                &&& final(self).spec_stats().spec_active_workers() == old(
                    self,
                ).spec_stats().spec_active_workers()
                &&& final(self).spec_seek().spec_last_offset() == start
                &&& final(self).spec_seek().spec_request_count() == (if old(
                    self,
                ).spec_seek().spec_request_count() < u32::MAX {
                    old(self).spec_seek().spec_request_count() + 1
                } else {
                    u32::MAX as int
                })
                &&& final(self).spec_seek().spec_sequential_hits() == (if !was_seek {
                    if old(self).spec_seek().spec_sequential_hits() < u32::MAX {
                        old(self).spec_seek().spec_sequential_hits() + 1
                    } else {
                        u32::MAX as int
                    }
                } else {
                    0int
                })
                &&& final(self).spec_seek().spec_warmup_start_ms() == old(
                    self,
                ).spec_seek().spec_warmup_start_ms()
                &&& final(self).spec_seek().spec_enabled() == (old(
                    self,
                ).spec_seek().spec_enabled() || crate::seek::spec_warmup_complete_at(
                    old(self).spec_seek().spec_warmup_start_ms(),
                    final(self).spec_seek().spec_request_count(),
                    final(self).spec_seek().spec_sequential_hits(),
                    now_ms,
                ))
                &&& final(self).spec_playback_bps() == spec_bps_ema(
                    old(self).spec_playback_bps(),
                    (end - start) as u64,
                )
                &&& final(self).spec_playback_offset() == old(self).spec_playback_offset()
                &&& (forall|j: int|
                    #![trigger final(self).spec_downloader().slots()[j]]
                    0 <= j < old(self).spec_total() ==> final(self).spec_downloader().slots()[j]
                        == (if next_chunk <= j < past_chunk && old(
                        self,
                    ).spec_downloader().spec_may_spawn(old(self).spec_cache(), j) {
                        ChunkSlot::Active { cancel_requested: false }
                    } else {
                        old(self).spec_downloader().slots()[j]
                    }))
                &&& (forall|k: int|
                    0 <= k < spawned@.len() ==> next_chunk <= #[trigger] spawned@[k] < past_chunk
                        && old(self).spec_downloader().spec_may_spawn(
                        old(self).spec_cache(),
                        spawned@[k] as int,
                    ))
                &&& (forall|j: int|
                    next_chunk <= j < past_chunk && old(self).spec_downloader().spec_may_spawn(
                        old(self).spec_cache(),
                        j,
                    ) ==> spawned@.contains(j as usize))
            }),
    {
        let data = match self.cache.read_range(start, end) {
            Some(d) => d,
            None => {
                return Err(ProxyError::CacheMiss);
            },
        };
        proof {
            lemma_offset_in_chunk(self.info.content_length, self.chunk_size, (end - 1) as u64);
        }
        let last = ((end - 1) / self.chunk_size) as usize;
        let prefetch_bytes = if self.playback_bps > 0 {
            crate::stats::sat_mul64(self.playback_bps, PRIORITY_BUFFER_SECONDS)
        } else {
            crate::stats::sat_mul64(self.chunk_size, DEFAULT_PREFETCH_CHUNKS)
        };
        let horizon_raw = crate::stats::sat_add64(end, prefetch_bytes);
        let horizon = if horizon_raw < self.info.content_length {
            horizon_raw
        } else {
            self.info.content_length
        };
        let past_u64 = crate::geometry::chunk_count(horizon, self.chunk_size);
        let total = self.cache.total_chunks();
        let past = if past_u64 < total as u64 {
            past_u64 as usize
        } else {
            total
        };
        proof {
            let cl = self.info.content_length as int;
            let cs = self.chunk_size as int;
            let q = cl / cs;
            if cl % cs == 0 {
                assert(q <= cl) by (nonlinear_arith)
                    requires cl >= 1, cs >= 1, q == cl / cs;
            } else {
                assert(q + 1 <= cl) by (nonlinear_arith)
                    requires cl >= 1, cs >= 2, q == cl / cs;
            }
            vstd::arithmetic::div_mod::lemma_div_is_ordered(horizon as int, cl, cs);
        }
        let spawned = self.downloader.prefetch_range(&self.cache, last + 1, past);
        self.stats.record_served(data.len() as u64);
        self.seek.update(start, !was_seek, now_ms);
        let range_len = end - start;
        let sample = crate::stats::sat_mul64(range_len, 8);
        if self.playback_bps == 0 {
            self.playback_bps = sample;
        } else {
            let wide = (self.playback_bps as u128) * 9 + (range_len as u128) * 8;
            let smoothed = wide / 10;
            self.playback_bps = if smoothed > u64::MAX as u128 {
                u64::MAX
            } else {
                smoothed as u64
            };
        }
        Ok((data, spawned))
    }

    /// Cancel all in-flight download work.
    pub fn shutdown(&mut self)
        requires
            old(self).wf(),
        ensures
            final(self).wf(),
            final(self).spec_downloader().spec_shutdown(),
            forall|i: int|
                #![trigger final(self).spec_downloader().slots()[i]]
                0 <= i < old(self).spec_total() ==> final(self).spec_downloader().slots()[i] == (
                if old(self).spec_downloader().slots()[i] is Active {
                    ChunkSlot::Active { cancel_requested: true }
                } else {
                    old(self).spec_downloader().slots()[i]
                }),
            final(self).spec_cache() == old(self).spec_cache(),
            final(self).spec_stats() == old(self).spec_stats(),
            final(self).spec_seek() == old(self).spec_seek(),
    {
        self.downloader.shutdown();
    }
}

} // verus!
