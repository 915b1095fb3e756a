//! Downloader scheduling state for one session.
//!
//! Fetch tasks run on an asynchronous runtime outside this crate; what is
//! modelled and verified here is every decision the downloader makes: the
//! per-chunk task slots (at most one task per chunk), the spawn/no-spawn
//! decision with its dedup and shutdown gates, window-based cancellation,
//! the two permit pools' sizes, and the retry protocol of a fetch task.
use vstd::prelude::*;

use crate::cache::DiskCache;
use crate::config::{MAX_RETRIES, RETRY_BACKOFF_UNIT_MS, URGENT_PERMITS};
use crate::geometry::{lemma_chunk_in_file, spec_chunk_len, spec_chunk_start};

verus! {

/// The task slot of one chunk: vacant, or holding a live task's
/// cancellation token and completion notifier.
#[derive(Clone, Copy, Debug, PartialEq, Eq, Structural)]
pub enum ChunkSlot {
    Vacant,
    Active { cancel_requested: bool },
}

/// Which permit pool a spawned task draws from.
#[derive(Clone, Copy, Debug, PartialEq, Eq, Structural)]
pub enum Priority {
    Urgent,
    Background,
}

/// What a fetch task does next, once an attempt resolved.
#[derive(Clone, Copy, Debug, PartialEq, Eq, Structural)]
pub enum FetchStep {
    /// Cancelled: stop without writing to the cache.
    Exit,
    /// Commit the payload to the cache, record the bytes, finish.
    WriteAndFinish,
    /// Auth was rejected: refresh credentials and retry the same attempt.
    RefreshAuthAndRetry,
    /// Transient failure: sleep `delay_ms`, then run `next_attempt`.
    Backoff { delay_ms: u64, next_attempt: u32 },
    /// Transient failure with no attempts left: record the failure.
    Fail,
}

/// How a single fetch attempt resolved.
#[derive(Clone, Copy, Debug, PartialEq, Eq, Structural)]
pub enum FetchOutcome {
    Success,
    AuthRejected,
    OtherError,
}

/// Number of active slots at index `j` or above.
pub open spec fn spec_active_count(slots: Seq<ChunkSlot>, j: int) -> int
    decreases slots.len() - j,
{
    if j < 0 || j >= slots.len() {
        0
    } else {
        (if slots[j] is Active {
            1int
        } else {
            0
        }) + spec_active_count(slots, j + 1)
    }
}

/// Law: activating one vacant slot raises the live-task count by exactly
/// one; at most one task can ever occupy a chunk's slot, because the slot
/// it fills is the one the count watches.
pub proof fn lemma_activate_counts_one(slots: Seq<ChunkSlot>, i: int, j: int)
    requires
        0 <= i < slots.len(),
        slots[i] is Vacant,
        0 <= j,
    ensures
        spec_active_count(slots.update(i, ChunkSlot::Active { cancel_requested: false }), j)
            == spec_active_count(slots, j) + if j <= i {
            1int
        } else {
            0
        },
    decreases slots.len() - j,
{
    if j < slots.len() {
        lemma_activate_counts_one(slots, i, j + 1);
    }
}

/// Law: vacating one active slot lowers the live-task count by exactly one.
pub proof fn lemma_vacate_counts_one(slots: Seq<ChunkSlot>, i: int, j: int)
    requires
        0 <= i < slots.len(),
        slots[i] is Active,
        0 <= j,
    ensures
        spec_active_count(slots.update(i, ChunkSlot::Vacant), j) == spec_active_count(slots, j)
            - if j <= i {
            1int
        } else {
            0
        },
    decreases slots.len() - j,
{
    if j < slots.len() {
        lemma_vacate_counts_one(slots, i, j + 1);
    }
}

/// Scheduling state of one session's downloader.
pub struct Downloader {
    slots: Vec<ChunkSlot>,
    shutdown: bool,
    urgent_permits: u32,
    background_permits: u32,
    max_retries: u32,
}

impl Downloader {
    /// The per-chunk task slots.
    pub closed spec fn slots(self) -> Seq<ChunkSlot> {
        self.slots@
    }

    /// Whether engine-wide shutdown was requested.
    pub closed spec fn spec_shutdown(self) -> bool {
        self.shutdown
    }

    pub closed spec fn spec_urgent_permits(self) -> u32 {
        self.urgent_permits
    }

    pub closed spec fn spec_background_permits(self) -> u32 {
        self.background_permits
    }

    pub closed spec fn spec_max_retries(self) -> u32 {
        self.max_retries
    }

    /// A chunk index may spawn a task exactly when shutdown was not
    /// requested, the chunk is not cached yet, and no task holds its slot.
    pub open spec fn spec_may_spawn(self, cache: DiskCache, i: int) -> bool {
        &&& !self.spec_shutdown()
        &&& 0 <= i < self.slots().len()
        &&& !cache.bits()[i]
        &&& self.slots()[i] is Vacant
    }

    /// A downloader for `total_chunks` chunks: all slots vacant, shutdown
    /// clear, two urgent permits, and `max(max_concurrency - 2, 1)`
    /// background permits.
    pub fn new(total_chunks: usize, max_concurrency: u32) -> (r: Downloader)
        ensures
            r.slots().len() == total_chunks,
            forall|i: int| 0 <= i < total_chunks ==> r.slots()[i] is Vacant,
            !r.spec_shutdown(),
            r.spec_urgent_permits() == URGENT_PERMITS,
            r.spec_background_permits() == (if max_concurrency > URGENT_PERMITS + 1 {
                max_concurrency - URGENT_PERMITS
            } else {
                1int
            }),
            r.spec_max_retries() == MAX_RETRIES,
    {
        let mut slots: Vec<ChunkSlot> = Vec::new();
        while slots.len() < total_chunks
            invariant
                slots@.len() <= total_chunks,
                forall|i: int| 0 <= i < slots@.len() ==> slots@[i] is Vacant,
            decreases total_chunks - slots@.len(),
        {
            slots.push(ChunkSlot::Vacant);
        }
        let background_permits = if max_concurrency > URGENT_PERMITS + 1 {
            max_concurrency - URGENT_PERMITS
        } else {
            1
        };
        Downloader {
            slots,
            shutdown: false,
            urgent_permits: URGENT_PERMITS,
            background_permits,
            max_retries: MAX_RETRIES,
        }
    }

    /// Size of the urgent permit pool.
    pub fn urgent_permits(&self) -> (r: u32)
        ensures
            r == self.spec_urgent_permits(),
    {
        self.urgent_permits
    }

    /// Size of the background permit pool.
    pub fn background_permits(&self) -> (r: u32)
        ensures
            r == self.spec_background_permits(),
    {
        self.background_permits
    }

    /// Retries allowed per chunk fetch beyond the first attempt.
    pub fn max_retries(&self) -> (r: u32)
        ensures
            r == self.spec_max_retries(),
    {
        self.max_retries
    }

    /// Number of chunk slots (one per chunk of the grid).
    pub fn slot_count(&self) -> (r: usize)
        ensures
            r == self.slots().len(),
    {
        self.slots.len()
    }

    /// The state of one chunk's slot.
    pub fn slot_at(&self, i: usize) -> (r: ChunkSlot)
        requires
            i < self.slots().len(),
        ensures
            r == self.slots()[i as int],
    {
        self.slots[i]
    }

    /// Request engine-wide shutdown: no future task spawns, and every
    /// live task's cancellation is requested.
    pub fn shutdown(&mut self)
        ensures
            final(self).spec_shutdown(),
            final(self).slots().len() == old(self).slots().len(),
            forall|i: int|
                0 <= i < old(self).slots().len() ==> final(self).slots()[i] == (if old(
                    self,
                ).slots()[i] is Active {
                    ChunkSlot::Active { cancel_requested: true }
                } else {
                    old(self).slots()[i]
                }),
            final(self).spec_urgent_permits() == old(self).spec_urgent_permits(),
            final(self).spec_background_permits() == old(self).spec_background_permits(),
            final(self).spec_max_retries() == old(self).spec_max_retries(),
    {
        self.shutdown = true;
        let n = self.slots.len();
        let mut i: usize = 0;
        while i < n
            invariant
                n == self.slots@.len(),
                i <= n,
                self.shutdown == true,
                self.urgent_permits == old(self).spec_urgent_permits(),
                self.background_permits == old(self).spec_background_permits(),
                self.max_retries == old(self).spec_max_retries(),
                forall|k: int|
                    0 <= k < i ==> self.slots@[k] == (if old(self).slots()[k] is Active {
                        ChunkSlot::Active { cancel_requested: true }
                    } else {
                        old(self).slots()[k]
                    }),
                forall|k: int| i <= k < n ==> self.slots@[k] == old(self).slots()[k],
            decreases n - i,
        {
            match self.slots[i] {
                ChunkSlot::Active { .. } => {
                    self.slots.set(i, ChunkSlot::Active { cancel_requested: true });
                },
                ChunkSlot::Vacant => {},
            }
            i += 1;
        }
    }

    /// Decide whether to spawn a background fetch task for a chunk;
    /// idempotent.  Returns true — and occupies the chunk's slot — exactly
    /// when no shutdown was requested, the chunk is missing, and no task
    /// is registered for it.
    pub fn start_prefetch(&mut self, cache: &DiskCache, chunk_index: usize) -> (spawn: bool)
        requires
            cache.wf(),
            old(self).slots().len() == cache.spec_total(),
        ensures
            spawn == old(self).spec_may_spawn(*cache, chunk_index as int),
            spawn ==> final(self).slots() == old(self).slots().update(
                chunk_index as int,
                ChunkSlot::Active { cancel_requested: false },
            ),
            !spawn ==> final(self).slots() == old(self).slots(),
            final(self).spec_shutdown() == old(self).spec_shutdown(),
            final(self).spec_urgent_permits() == old(self).spec_urgent_permits(),
            final(self).spec_background_permits() == old(self).spec_background_permits(),
            final(self).spec_max_retries() == old(self).spec_max_retries(),
    {
        self.start_fetch_slot(cache, chunk_index)
    }

    /// Decide whether to spawn an urgent fetch task for a chunk; the same
    /// gates as `start_prefetch`, drawing from the urgent pool instead.
    pub fn start_urgent_prefetch(&mut self, cache: &DiskCache, chunk_index: usize) -> (spawn:
        bool)
        requires
            cache.wf(),
            old(self).slots().len() == cache.spec_total(),
        ensures
            spawn == old(self).spec_may_spawn(*cache, chunk_index as int),
            spawn ==> final(self).slots() == old(self).slots().update(
                chunk_index as int,
                ChunkSlot::Active { cancel_requested: false },
            ),
            !spawn ==> final(self).slots() == old(self).slots(),
            final(self).spec_shutdown() == old(self).spec_shutdown(),
            final(self).spec_urgent_permits() == old(self).spec_urgent_permits(),
            final(self).spec_background_permits() == old(self).spec_background_permits(),
            final(self).spec_max_retries() == old(self).spec_max_retries(),
    {
        self.start_fetch_slot(cache, chunk_index)
    }

    /// The shared spawn gate: install a fresh slot if and only if the
    /// chunk may spawn.
    fn start_fetch_slot(&mut self, cache: &DiskCache, chunk_index: usize) -> (spawn: bool)
        requires
            cache.wf(),
            old(self).slots().len() == cache.spec_total(),
        ensures
            spawn == old(self).spec_may_spawn(*cache, chunk_index as int),
            spawn ==> final(self).slots() == old(self).slots().update(
                chunk_index as int,
                ChunkSlot::Active { cancel_requested: false },
            ),
            !spawn ==> final(self).slots() == old(self).slots(),
            final(self).spec_shutdown() == old(self).spec_shutdown(),
            final(self).spec_urgent_permits() == old(self).spec_urgent_permits(),
            final(self).spec_background_permits() == old(self).spec_background_permits(),
            final(self).spec_max_retries() == old(self).spec_max_retries(),
    {
        if self.shutdown {
            return false;
        }
        if chunk_index >= self.slots.len() {
            return false;
        }
        if cache.has_chunk(chunk_index) {
            return false;
        }
        match self.slots[chunk_index] {
            ChunkSlot::Active { .. } => false,
            ChunkSlot::Vacant => {
                self.slots.set(chunk_index, ChunkSlot::Active { cancel_requested: false });
                true
            },
        }
    }

    /// Bookkeeping when a fetch task ends, after notifying waiters: the
    /// chunk's slot is vacated whatever the task's outcome was.
    pub fn finish_fetch(&mut self, chunk_index: usize)
        requires
            chunk_index < old(self).slots().len(),
            old(self).slots()[chunk_index as int] is Active,
        ensures
            final(self).slots() == old(self).slots().update(chunk_index as int, ChunkSlot::Vacant),
            final(self).spec_shutdown() == old(self).spec_shutdown(),
            final(self).spec_urgent_permits() == old(self).spec_urgent_permits(),
            final(self).spec_background_permits() == old(self).spec_background_permits(),
            final(self).spec_max_retries() == old(self).spec_max_retries(),
    {
        self.slots.set(chunk_index, ChunkSlot::Vacant);
    }

    /// Request cancellation of every live task outside `[start_chunk,
    /// end_chunk)`; tasks inside the window, and vacant slots, are left
    /// alone.
    pub fn abort_outside_window(&mut self, start_chunk: usize, end_chunk: usize)
        ensures
            final(self).slots().len() == old(self).slots().len(),
            forall|i: int|
                0 <= i < old(self).slots().len() ==> final(self).slots()[i] == (if (i
                    < start_chunk || i >= end_chunk) && old(self).slots()[i] is Active {
                    ChunkSlot::Active { cancel_requested: true }
                } else {
                    old(self).slots()[i]
                }),
            final(self).spec_shutdown() == old(self).spec_shutdown(),
            final(self).spec_urgent_permits() == old(self).spec_urgent_permits(),
            final(self).spec_background_permits() == old(self).spec_background_permits(),
            final(self).spec_max_retries() == old(self).spec_max_retries(),
    {
        let n = self.slots.len();
        let mut i: usize = 0;
        while i < n
            invariant
                n == self.slots@.len(),
                i <= n,
                self.shutdown == old(self).spec_shutdown(),
                self.urgent_permits == old(self).spec_urgent_permits(),
                self.background_permits == old(self).spec_background_permits(),
                self.max_retries == old(self).spec_max_retries(),
                forall|k: int|
                    0 <= k < i ==> self.slots@[k] == (if (k < start_chunk || k >= end_chunk)
                        && old(self).slots()[k] is Active {
                        ChunkSlot::Active { cancel_requested: true }
                    } else {
                        old(self).slots()[k]
                    }),
                forall|k: int| i <= k < n ==> self.slots@[k] == old(self).slots()[k],
            decreases n - i,
        {
            if i < start_chunk || i >= end_chunk {
                match self.slots[i] {
                    ChunkSlot::Active { .. } => {
                        self.slots.set(i, ChunkSlot::Active { cancel_requested: true });
                    },
                    ChunkSlot::Vacant => {},
                }
            }
            i += 1;
        }
    }

    /// Decide the background prefetch of every chunk in `[start_chunk,
    /// end_chunk)`, clamped to the grid: each chunk that may spawn is
    /// occupied and listed, in increasing order; the rest are untouched.
    pub fn prefetch_range(&mut self, cache: &DiskCache, start_chunk: usize, end_chunk: usize)
        -> (spawned: Vec<usize>)
        requires
            cache.wf(),
            old(self).slots().len() == cache.spec_total(),
        ensures
            final(self).slots().len() == old(self).slots().len(),
            forall|i: int|
                0 <= i < old(self).slots().len() ==> final(self).slots()[i] == (if start_chunk
                    <= i < end_chunk && old(self).spec_may_spawn(*cache, i) {
                    ChunkSlot::Active { cancel_requested: false }
                } else {
                    old(self).slots()[i]
                }),
            forall|k: int|
                0 <= k < spawned@.len() ==> start_chunk <= spawned@[k] < end_chunk && old(
                    self,
                ).spec_may_spawn(*cache, spawned@[k] as int),
            forall|k1: int, k2: int|
                0 <= k1 < k2 < spawned@.len() ==> spawned@[k1] < spawned@[k2],
            forall|i: int|
                start_chunk <= i < end_chunk && old(self).spec_may_spawn(*cache, i)
                    ==> spawned@.contains(i as usize),
            final(self).spec_shutdown() == old(self).spec_shutdown(),
            final(self).spec_urgent_permits() == old(self).spec_urgent_permits(),
            final(self).spec_background_permits() == old(self).spec_background_permits(),
            final(self).spec_max_retries() == old(self).spec_max_retries(),
    {
        let total = self.slots.len();
        let stop = if end_chunk < total {
            end_chunk
        } else {
            total
        };
        let mut spawned: Vec<usize> = Vec::new();
        let mut i = start_chunk;
        if i >= stop {
            return spawned;
        }
        while i < stop
            invariant
                cache.wf(),
                old(self).slots().len() == cache.spec_total(),
                total == old(self).slots().len(),
                stop == (if end_chunk < total {
                    end_chunk as int
                } else {
                    total as int
                }),
                start_chunk <= i <= stop,
                self.slots@.len() == old(self).slots().len(),
                self.shutdown == old(self).spec_shutdown(),
                self.urgent_permits == old(self).spec_urgent_permits(),
                self.background_permits == old(self).spec_background_permits(),
                self.max_retries == old(self).spec_max_retries(),
                forall|j: int|
                    0 <= j < old(self).slots().len() ==> #[trigger] self.slots@[j] == (if
                    start_chunk <= j < i && old(self).spec_may_spawn(*cache, j) {
                        ChunkSlot::Active { cancel_requested: false }
                    } else {
                        old(self).slots()[j]
                    }),
                forall|k: int|
                    0 <= k < spawned@.len() ==> start_chunk <= spawned@[k] < i && old(
                        self,
                    ).spec_may_spawn(*cache, spawned@[k] as int),
                forall|k1: int, k2: int|
                    0 <= k1 < k2 < spawned@.len() ==> spawned@[k1] < spawned@[k2],
                forall|j: int|
                    start_chunk <= j < i && old(self).spec_may_spawn(*cache, j)
                        ==> spawned@.contains(j as usize),
            decreases stop - i,
        {
            proof {
                assert(self.slots@[i as int] == old(self).slots()[i as int]);
                assert(self.spec_may_spawn(*cache, i as int) == old(self).spec_may_spawn(
                    *cache,
                    i as int,
                ));
            }
            let ghost pre = *self;
            let ghost pre_spawned = spawned@;
            let did = self.start_prefetch(cache, i);
            if did {
                spawned.push(i);
            }
            proof {
                assert forall|j: int|
                    start_chunk <= j < i + 1 && old(self).spec_may_spawn(
                        *cache,
                        j,
                    ) implies spawned@.contains(j as usize) by {
                    if j < i {
                        let k = choose|k: int|
                            0 <= k < pre_spawned.len() && pre_spawned[k] == j as usize;
                        assert(spawned@[k] == j as usize);
                    } else {
                        assert(spawned@[spawned@.len() - 1] == j as usize);
                    }
                }
            }
            i += 1;
        }
        spawned
    }

    /// Whether a task beginning to wait on a chunk's completion can
    /// return at once: true when the chunk is already cached; otherwise a
    /// background prefetch is ensured (the spawn decision is returned)
    /// and the caller awaits the chunk's notifier before rereading the
    /// completion bit.
    pub fn wait_for_chunk_plan(&mut self, cache: &DiskCache, chunk_index: usize) -> (r: (
        bool,
        bool,
    ))
        requires
            cache.wf(),
            old(self).slots().len() == cache.spec_total(),
        ensures
            r.0 == (chunk_index < cache.spec_total() && cache.bits()[chunk_index as int]),
            r.0 ==> final(self).slots() == old(self).slots(),
            !r.0 ==> r.1 == old(self).spec_may_spawn(*cache, chunk_index as int),
            !r.0 && r.1 ==> final(self).slots() == old(self).slots().update(
                chunk_index as int,
                ChunkSlot::Active { cancel_requested: false },
            ),
            !r.0 && !r.1 ==> final(self).slots() == old(self).slots(),
            final(self).spec_shutdown() == old(self).spec_shutdown(),
            final(self).spec_urgent_permits() == old(self).spec_urgent_permits(),
            final(self).spec_background_permits() == old(self).spec_background_permits(),
            final(self).spec_max_retries() == old(self).spec_max_retries(),
    {
        if cache.has_chunk(chunk_index) {
            return (true, false);
        }
        let spawn = self.start_prefetch(cache, chunk_index);
        (false, spawn)
    }
}

/// The inclusive byte range a fetch task requests for a chunk.
pub fn fetch_task_range(cache: &DiskCache, chunk_index: usize) -> (r: (u64, u64))
    requires
        cache.wf(),
        chunk_index < cache.spec_total(),
    ensures
        r.0 == spec_chunk_start(cache.spec_chunk_size(), chunk_index as int),
        r.1 == r.0 + cache.spec_chunk_len_of(chunk_index as int) - 1,
{
    proof {
        lemma_chunk_in_file(
            cache.spec_content_length(),
            cache.spec_chunk_size(),
            chunk_index as int,
        );
    }
    let start = chunk_index as u64 * cache.chunk_size();
    let len = cache.chunk_len(chunk_index);
    (start, start + len as u64 - 1)
}

/// The retry protocol of a fetch task, one resolved attempt at a time.
///
/// Cancellation (observed after the attempt) exits without writing.  A
/// successful fetch is committed.  An auth rejection refreshes credentials
/// and retries immediately without consuming an attempt.  Any other error
/// backs off `500 ms * (attempt + 1)` and retries while attempts remain,
/// else records the failure.
pub fn fetch_attempt_step(
    attempt: u32,
    outcome: FetchOutcome,
    cancelled: bool,
    max_retries: u32,
) -> (r: FetchStep)
    requires
        attempt <= max_retries,
    ensures
        cancelled ==> r == FetchStep::Exit,
        !cancelled && outcome == FetchOutcome::Success ==> r == FetchStep::WriteAndFinish,
        !cancelled && outcome == FetchOutcome::AuthRejected ==> r
            == FetchStep::RefreshAuthAndRetry,
        !cancelled && outcome == FetchOutcome::OtherError && attempt < max_retries ==> r == (
        FetchStep::Backoff {
            delay_ms: (RETRY_BACKOFF_UNIT_MS * (attempt + 1) as u64) as u64,
            next_attempt: (attempt + 1) as u32,
        }),
        !cancelled && outcome == FetchOutcome::OtherError && attempt >= max_retries ==> r
            == FetchStep::Fail,
{
    if cancelled {
        return FetchStep::Exit;
    }
    match outcome {
        FetchOutcome::Success => FetchStep::WriteAndFinish,
        FetchOutcome::AuthRejected => FetchStep::RefreshAuthAndRetry,
        FetchOutcome::OtherError => {
            if attempt < max_retries {
                FetchStep::Backoff {
                    delay_ms: RETRY_BACKOFF_UNIT_MS * (attempt as u64 + 1),
                    next_attempt: attempt + 1,
                }
            } else {
                FetchStep::Fail
            }
        },
    }
}

} // verus!
