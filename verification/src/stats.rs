//! Per-session statistics: byte counters, worker count, and rate-windowed
//! throughput.  Wall-clock time enters as a caller-supplied monotonic
//! reading in milliseconds.
use vstd::prelude::*;

verus! {

/// A point-in-time report of a session's statistics.
///
/// The cache-hit ratio is reported as its two counters,
/// `cache_hit_bytes / requested_bytes`, so the caller can divide.
#[derive(Clone, Copy, Debug)]
pub struct StatsSnapshot {
    /// Instantaneous download throughput, bits per second.
    pub download_bps: u64,
    /// Instantaneous serve throughput, bits per second.
    pub serve_bps: u64,
    /// Contiguous cached bytes ahead of the playback offset.
    pub buffered_bytes_ahead: u64,
    /// Fetch workers currently holding a permit.
    pub active_workers: u32,
    /// Bytes requested from the session so far.
    pub requested_bytes: u64,
    /// Of the requested bytes, how many were already cached.
    pub cache_hit_bytes: u64,
}

/// Running counters for one session.
pub struct StatsCollector {
    download_bytes_total: u64,
    serve_bytes_total: u64,
    active_workers: u32,
    requested_bytes: u64,
    cache_hit_bytes: u64,
    sample_at_ms: u64,
    sample_download: u64,
    sample_serve: u64,
}

/// Saturating u64 addition.
pub open spec fn spec_sat_add64(a: u64, b: u64) -> u64 {
    if a + b <= u64::MAX {
        (a + b) as u64
    } else {
        u64::MAX
    }
}

/// Bits per second over a window: `bytes * 8000 / elapsed_ms`, clamped to
/// the u64 range.
pub open spec fn spec_bps(bytes: u64, elapsed_ms: u64) -> u64
    recommends
        elapsed_ms > 0,
{
    if bytes * 8000 / (elapsed_ms as int) <= u64::MAX {
        (bytes * 8000 / (elapsed_ms as int)) as u64
    } else {
        u64::MAX
    }
}

impl StatsCollector {
    pub closed spec fn spec_download_total(self) -> u64 {
        self.download_bytes_total
    }

    pub closed spec fn spec_serve_total(self) -> u64 {
        self.serve_bytes_total
    }

    pub closed spec fn spec_active_workers(self) -> u32 {
        self.active_workers
    }

    pub closed spec fn spec_requested_bytes(self) -> u64 {
        self.requested_bytes
    }

    pub closed spec fn spec_cache_hit_bytes(self) -> u64 {
        self.cache_hit_bytes
    }

    pub closed spec fn spec_sample_at_ms(self) -> u64 {
        self.sample_at_ms
    }

    pub closed spec fn spec_sample_download(self) -> u64 {
        self.sample_download
    }

    pub closed spec fn spec_sample_serve(self) -> u64 {
        self.sample_serve
    }

    /// The throughput sample never runs ahead of the counters.
    pub open spec fn wf(self) -> bool {
        &&& self.spec_sample_download() <= self.spec_download_total()
        &&& self.spec_sample_serve() <= self.spec_serve_total()
    }

    /// Fresh counters, with the throughput window opened at `now_ms`.
    pub fn new(now_ms: u64) -> (r: StatsCollector)
        ensures
            r.wf(),
            r.spec_download_total() == 0,
            r.spec_serve_total() == 0,
            r.spec_active_workers() == 0,
            r.spec_requested_bytes() == 0,
            r.spec_cache_hit_bytes() == 0,
            r.spec_sample_at_ms() == now_ms,
    {
        StatsCollector {
            download_bytes_total: 0,
            serve_bytes_total: 0,
            active_workers: 0,
            requested_bytes: 0,
            cache_hit_bytes: 0,
            sample_at_ms: now_ms,
            sample_download: 0,
            sample_serve: 0,
        }
    }

    /// Count bytes fetched from the origin.
    pub fn record_downloaded(&mut self, bytes: u64)
        requires
            old(self).wf(),
        ensures
            final(self).wf(),
            final(self).spec_download_total() == spec_sat_add64(
                old(self).spec_download_total(),
                bytes,
            ),
            final(self).spec_serve_total() == old(self).spec_serve_total(),
            final(self).spec_active_workers() == old(self).spec_active_workers(),
            final(self).spec_requested_bytes() == old(self).spec_requested_bytes(),
            final(self).spec_cache_hit_bytes() == old(self).spec_cache_hit_bytes(),
            final(self).spec_sample_at_ms() == old(self).spec_sample_at_ms(),
    {
        self.download_bytes_total = sat_add64(self.download_bytes_total, bytes);
    }

    /// Count bytes served to the player.
    pub fn record_served(&mut self, bytes: u64)
        requires
            old(self).wf(),
        ensures
            final(self).wf(),
            final(self).spec_serve_total() == spec_sat_add64(old(self).spec_serve_total(), bytes),
            final(self).spec_download_total() == old(self).spec_download_total(),
            final(self).spec_active_workers() == old(self).spec_active_workers(),
            final(self).spec_requested_bytes() == old(self).spec_requested_bytes(),
            final(self).spec_cache_hit_bytes() == old(self).spec_cache_hit_bytes(),
            final(self).spec_sample_at_ms() == old(self).spec_sample_at_ms(),
    {
        self.serve_bytes_total = sat_add64(self.serve_bytes_total, bytes);
    }

    /// Record a request of `total` bytes, `cached` of which were already
    /// in the cache.
    pub fn record_request(&mut self, total: u64, cached: u64)
        requires
            old(self).wf(),
        ensures
            final(self).wf(),
            final(self).spec_requested_bytes() == spec_sat_add64(
                old(self).spec_requested_bytes(),
                total,
            ),
            final(self).spec_cache_hit_bytes() == spec_sat_add64(
                old(self).spec_cache_hit_bytes(),
                cached,
            ),
            final(self).spec_download_total() == old(self).spec_download_total(),
            final(self).spec_serve_total() == old(self).spec_serve_total(),
            final(self).spec_active_workers() == old(self).spec_active_workers(),
            final(self).spec_sample_at_ms() == old(self).spec_sample_at_ms(),
    {
        self.requested_bytes = sat_add64(self.requested_bytes, total);
        self.cache_hit_bytes = sat_add64(self.cache_hit_bytes, cached);
    }

    /// One more worker holds a permit (saturating).
    pub fn increment_workers(&mut self)
        requires
            old(self).wf(),
        ensures
            final(self).wf(),
            final(self).spec_active_workers() == (if old(self).spec_active_workers() < u32::MAX {
                old(self).spec_active_workers() + 1
            } else {
                u32::MAX as int
            }),
            final(self).spec_download_total() == old(self).spec_download_total(),
            final(self).spec_serve_total() == old(self).spec_serve_total(),
            final(self).spec_requested_bytes() == old(self).spec_requested_bytes(),
            final(self).spec_cache_hit_bytes() == old(self).spec_cache_hit_bytes(),
            final(self).spec_sample_at_ms() == old(self).spec_sample_at_ms(),
    {
        if self.active_workers < u32::MAX {
            self.active_workers = self.active_workers + 1;
        }
    }

    /// One worker released its permit (never below zero).
    pub fn decrement_workers(&mut self)
        requires
            old(self).wf(),
        ensures
            final(self).wf(),
            final(self).spec_active_workers() == (if old(self).spec_active_workers() > 0 {
                old(self).spec_active_workers() - 1
            } else {
                0int
            }),
            final(self).spec_download_total() == old(self).spec_download_total(),
            final(self).spec_serve_total() == old(self).spec_serve_total(),
            final(self).spec_requested_bytes() == old(self).spec_requested_bytes(),
            final(self).spec_cache_hit_bytes() == old(self).spec_cache_hit_bytes(),
            final(self).spec_sample_at_ms() == old(self).spec_sample_at_ms(),
    {
        if self.active_workers > 0 {
            self.active_workers = self.active_workers - 1;
        }
    }

    /// Total bytes fetched from the origin so far.
    pub fn total_downloaded(&self) -> (r: u64)
        ensures
            r == self.spec_download_total(),
    {
        self.download_bytes_total
    }

    /// Capture a snapshot at `now_ms`.
    ///
    /// Throughput covers the window since the previous snapshot; a window
    /// of 100 ms or less (or a clock that went backwards) reports zero for
    /// both legs to avoid division noise.  The window is then restarted.
    pub fn snapshot(&mut self, now_ms: u64, buffered_bytes_ahead: u64) -> (r: StatsSnapshot)
        requires
            old(self).wf(),
        ensures
            final(self).wf(),
            ({
                let elapsed = now_ms - old(self).spec_sample_at_ms();
                &&& (elapsed > 100 ==> r.download_bps == spec_bps(
                    (old(self).spec_download_total() - old(self).spec_sample_download()) as u64,
                    elapsed as u64,
                ))
                &&& (elapsed > 100 ==> r.serve_bps == spec_bps(
                    (old(self).spec_serve_total() - old(self).spec_sample_serve()) as u64,
                    elapsed as u64,
                ))
                &&& (elapsed <= 100 ==> r.download_bps == 0 && r.serve_bps == 0)
            }),
            r.buffered_bytes_ahead == buffered_bytes_ahead,
            r.active_workers == old(self).spec_active_workers(),
            r.requested_bytes == old(self).spec_requested_bytes(),
            r.cache_hit_bytes == old(self).spec_cache_hit_bytes(),
            final(self).spec_sample_at_ms() == now_ms,
            final(self).spec_sample_download() == old(self).spec_download_total(),
            final(self).spec_sample_serve() == old(self).spec_serve_total(),
            final(self).spec_download_total() == old(self).spec_download_total(),
            final(self).spec_serve_total() == old(self).spec_serve_total(),
            final(self).spec_active_workers() == old(self).spec_active_workers(),
            final(self).spec_requested_bytes() == old(self).spec_requested_bytes(),
            final(self).spec_cache_hit_bytes() == old(self).spec_cache_hit_bytes(),
    {
        let elapsed_ok = now_ms > self.sample_at_ms && now_ms - self.sample_at_ms > 100;
        let (download_bps, serve_bps) = if elapsed_ok {
            let elapsed = now_ms - self.sample_at_ms;
            (
                bps_over(self.download_bytes_total - self.sample_download, elapsed),
                bps_over(self.serve_bytes_total - self.sample_serve, elapsed),
            )
        } else {
            (0, 0)
        };
        let snap = StatsSnapshot {
            download_bps,
            serve_bps,
            buffered_bytes_ahead,
            active_workers: self.active_workers,
            requested_bytes: self.requested_bytes,
            cache_hit_bytes: self.cache_hit_bytes,
        };
        self.sample_at_ms = now_ms;
        self.sample_download = self.download_bytes_total;
        self.sample_serve = self.serve_bytes_total;
        snap
    }
}

/// Saturating u64 multiplication.
pub open spec fn spec_sat_mul64(a: u64, b: u64) -> u64 {
    if a * b <= u64::MAX {
        (a * b) as u64
    } else {
        u64::MAX
    }
}

/// Elementwise saturating sum of two snapshots' counters.
pub open spec fn spec_snapshot_sum(a: StatsSnapshot, b: StatsSnapshot) -> StatsSnapshot {
    StatsSnapshot {
        download_bps: spec_sat_add64(a.download_bps, b.download_bps),
        serve_bps: spec_sat_add64(a.serve_bps, b.serve_bps),
        buffered_bytes_ahead: spec_sat_add64(a.buffered_bytes_ahead, b.buffered_bytes_ahead),
        active_workers: (if a.active_workers + b.active_workers <= u32::MAX {
            (a.active_workers + b.active_workers) as u32
        } else {
            u32::MAX
        }),
        requested_bytes: spec_sat_add64(a.requested_bytes, b.requested_bytes),
        cache_hit_bytes: spec_sat_add64(a.cache_hit_bytes, b.cache_hit_bytes),
    }
}

/// The all-zero snapshot.
pub open spec fn spec_zero_snapshot() -> StatsSnapshot {
    StatsSnapshot {
        download_bps: 0,
        serve_bps: 0,
        buffered_bytes_ahead: 0,
        active_workers: 0,
        requested_bytes: 0,
        cache_hit_bytes: 0,
    }
}

/// Left-fold sum of the first `j` snapshots.
pub open spec fn spec_sum_prefix(s: Seq<StatsSnapshot>, j: int) -> StatsSnapshot
    decreases j,
{
    if j <= 0 {
        spec_zero_snapshot()
    } else {
        spec_snapshot_sum(spec_sum_prefix(s, j - 1), s[j - 1])
    }
}

/// Aggregate per-session snapshots by summing the counters (the hit
/// ratio's two counters are summed like the rest; a mean of the ratios is
/// the caller's division).
pub fn sum_snapshots(snaps: &Vec<StatsSnapshot>) -> (r: StatsSnapshot)
    ensures
        r == spec_sum_prefix(snaps@, snaps@.len() as int),
{
    let mut acc = StatsSnapshot {
        download_bps: 0,
        serve_bps: 0,
        buffered_bytes_ahead: 0,
        active_workers: 0,
        requested_bytes: 0,
        cache_hit_bytes: 0,
    };
    let n = snaps.len();
    let mut i: usize = 0;
    while i < n
        invariant
            n == snaps@.len(),
            i <= n,
            acc == spec_sum_prefix(snaps@, i as int),
        decreases n - i,
    {
        let s = snaps[i];
        acc = StatsSnapshot {
            download_bps: sat_add64(acc.download_bps, s.download_bps),
            serve_bps: sat_add64(acc.serve_bps, s.serve_bps),
            buffered_bytes_ahead: sat_add64(acc.buffered_bytes_ahead, s.buffered_bytes_ahead),
            active_workers: (if s.active_workers > u32::MAX - acc.active_workers {
                u32::MAX
            } else {
                acc.active_workers + s.active_workers
            }),
            requested_bytes: sat_add64(acc.requested_bytes, s.requested_bytes),
            cache_hit_bytes: sat_add64(acc.cache_hit_bytes, s.cache_hit_bytes),
        };
        i += 1;
    }
    acc
}

/// Saturating u64 addition.
pub(crate) fn sat_add64(a: u64, b: u64) -> (r: u64)
    ensures
        r == spec_sat_add64(a, b),
{
    if b > u64::MAX - a {
        u64::MAX
    } else {
        a + b
    }
}

/// Saturating u64 multiplication.
pub(crate) fn sat_mul64(a: u64, b: u64) -> (r: u64)
    ensures
        r == spec_sat_mul64(a, b),
{
    proof {
        assert((a as int) * (b as int) <= u128::MAX) by (nonlinear_arith)
            requires a <= u64::MAX, b <= u64::MAX;
    }
    let wide = (a as u128) * (b as u128);
    if wide > u64::MAX as u128 {
        u64::MAX
    } else {
        wide as u64
    }
}

/// Bits per second over a window, clamped to the u64 range.
fn bps_over(bytes: u64, elapsed_ms: u64) -> (r: u64)
    requires
        elapsed_ms > 0,
    ensures
        r == spec_bps(bytes, elapsed_ms),
{
    let wide = (bytes as u128) * 8000 / (elapsed_ms as u128);
    if wide > u64::MAX as u128 {
        u64::MAX
    } else {
        wide as u64
    }
}

} // verus!
