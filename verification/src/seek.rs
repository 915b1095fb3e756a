//! Seek detection for a session.
//!
//! Detection is gated behind a warmup so a normal sequential startup is
//! never classified as a seek: it engages only once enough wall-clock time
//! has passed, enough requests have been served, and enough of them were
//! sequential.  Time enters as a caller-supplied monotonic reading in
//! milliseconds.
use vstd::prelude::*;

use crate::config::{
    SEEK_STABLE_SEQUENTIAL_HITS, SEEK_THRESHOLD_BYTES, SEEK_WARMUP_REQUESTS, SEEK_WARMUP_SECONDS,
};

verus! {

/// Warmup completion, over the detector's fields: at least
/// `SEEK_WARMUP_SECONDS` elapsed since `start_ms`, at least
/// `SEEK_WARMUP_REQUESTS` requests seen, and at least
/// `SEEK_STABLE_SEQUENTIAL_HITS` of them in a row.
pub open spec fn spec_warmup_complete_at(
    start_ms: u64,
    request_count: u32,
    sequential_hits: u32,
    now_ms: u64,
) -> bool {
    &&& now_ms - start_ms >= SEEK_WARMUP_SECONDS * 1000
    &&& request_count >= SEEK_WARMUP_REQUESTS
    &&& sequential_hits >= SEEK_STABLE_SEQUENTIAL_HITS
}

/// Warmup-gated seek detector.
pub struct SeekState {
    enabled: bool,
    warmup_start_ms: u64,
    request_count: u32,
    sequential_hits: u32,
    last_offset: u64,
}

impl SeekState {
    pub closed spec fn spec_enabled(self) -> bool {
        self.enabled
    }

    pub closed spec fn spec_warmup_start_ms(self) -> u64 {
        self.warmup_start_ms
    }

    pub closed spec fn spec_request_count(self) -> u32 {
        self.request_count
    }

    pub closed spec fn spec_sequential_hits(self) -> u32 {
        self.sequential_hits
    }

    pub closed spec fn spec_last_offset(self) -> u64 {
        self.last_offset
    }

    /// Warmup is complete at `now_ms` when at least `SEEK_WARMUP_SECONDS`
    /// have elapsed, at least `SEEK_WARMUP_REQUESTS` requests were seen,
    /// and at least `SEEK_STABLE_SEQUENTIAL_HITS` of them ran in a row.
    pub open spec fn spec_warmup_complete(self, now_ms: u64) -> bool {
        spec_warmup_complete_at(
            self.spec_warmup_start_ms(),
            self.spec_request_count(),
            self.spec_sequential_hits(),
            now_ms,
        )
    }

    /// A request at `offset` is a seek exactly when detection is enabled
    /// and the jump from the previous offset exceeds the threshold.
    pub open spec fn spec_is_seek(self, offset: u64) -> bool {
        &&& self.spec_enabled()
        &&& (if offset > self.spec_last_offset() {
            offset - self.spec_last_offset()
        } else {
            self.spec_last_offset() - offset
        }) > SEEK_THRESHOLD_BYTES
    }

    /// A fresh detector: disabled, counters clear, warmup started now.
    pub fn new(now_ms: u64) -> (r: SeekState)
        ensures
            !r.spec_enabled(),
            r.spec_warmup_start_ms() == now_ms,
            r.spec_request_count() == 0,
            r.spec_sequential_hits() == 0,
            r.spec_last_offset() == 0,
    {
        SeekState {
            enabled: false,
            warmup_start_ms: now_ms,
            request_count: 0,
            sequential_hits: 0,
            last_offset: 0,
        }
    }

    /// Enable seek detection if the warmup conditions hold at `now_ms`;
    /// never disables it, and touches nothing else.
    pub fn maybe_enable(&mut self, now_ms: u64)
        ensures
            final(self).spec_enabled() == (old(self).spec_enabled() || old(
                self,
            ).spec_warmup_complete(now_ms)),
            final(self).spec_warmup_start_ms() == old(self).spec_warmup_start_ms(),
            final(self).spec_request_count() == old(self).spec_request_count(),
            final(self).spec_sequential_hits() == old(self).spec_sequential_hits(),
            final(self).spec_last_offset() == old(self).spec_last_offset(),
    {
        if self.enabled {
            return ;
        }
        let elapsed_ms = if now_ms >= self.warmup_start_ms {
            now_ms - self.warmup_start_ms
        } else {
            0
        };
        if elapsed_ms / 1000 >= SEEK_WARMUP_SECONDS && self.request_count >= SEEK_WARMUP_REQUESTS
            && self.sequential_hits >= SEEK_STABLE_SEQUENTIAL_HITS {
            self.enabled = true;
        }
    }

    /// Whether a request at `offset` counts as a seek.
    pub fn is_seek(&self, offset: u64) -> (r: bool)
        ensures
            r == self.spec_is_seek(offset),
    {
        if !self.enabled {
            return false;
        }
        let diff = if offset > self.last_offset {
            offset - self.last_offset
        } else {
            self.last_offset - offset
        };
        diff > SEEK_THRESHOLD_BYTES
    }

    /// Record a served request: counts it, remembers its offset, extends or
    /// resets the sequential run, then re-checks the warmup gate at
    /// `now_ms`.  The counters saturate rather than wrap.
    pub fn update(&mut self, offset: u64, was_sequential: bool, now_ms: u64)
        ensures
            final(self).spec_request_count() == (if old(self).spec_request_count() < u32::MAX {
                old(self).spec_request_count() + 1
            } else {
                u32::MAX as int
            }),
            final(self).spec_last_offset() == offset,
            final(self).spec_sequential_hits() == (if was_sequential {
                if old(self).spec_sequential_hits() < u32::MAX {
                    old(self).spec_sequential_hits() + 1
                } else {
                    u32::MAX as int
                }
            } else {
                0int
            }),
            final(self).spec_warmup_start_ms() == old(self).spec_warmup_start_ms(),
            final(self).spec_enabled() == (old(self).spec_enabled() || spec_warmup_complete_at(
                old(self).spec_warmup_start_ms(),
                final(self).spec_request_count(),
                final(self).spec_sequential_hits(),
                now_ms,
            )),
    {
        if self.request_count < u32::MAX {
            self.request_count = self.request_count + 1;
        }
        self.last_offset = offset;
        if was_sequential {
            if self.sequential_hits < u32::MAX {
                self.sequential_hits = self.sequential_hits + 1;
            }
        } else {
            self.sequential_hits = 0;
        }
        self.maybe_enable(now_ms);
    }

    /// Reset the warmup after a detected seek: detection off, counters
    /// clear, warmup restarted at `now_ms`; the last offset is kept.
    pub fn reset_warmup(&mut self, now_ms: u64)
        ensures
            !final(self).spec_enabled(),
            final(self).spec_warmup_start_ms() == now_ms,
            final(self).spec_request_count() == 0,
            final(self).spec_sequential_hits() == 0,
            final(self).spec_last_offset() == old(self).spec_last_offset(),
    {
        self.warmup_start_ms = now_ms;
        self.request_count = 0;
        self.sequential_hits = 0;
        self.enabled = false;
    }
}

} // verus!
