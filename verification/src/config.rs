//! Engine configuration and the engine's fixed tuning constants.
use vstd::prelude::*;

verus! {

/// Bytes per cache chunk unless configured otherwise (2 MiB).
pub const DEFAULT_CHUNK_SIZE: u64 = 2 * 1024 * 1024;

/// Parallel fetch workers unless configured otherwise.
pub const DEFAULT_MAX_CONCURRENCY: u32 = 6;

/// Fetch permits reserved for chunks the player is blocked on.
pub const URGENT_PERMITS: u32 = 2;

/// Seconds of content the look-ahead prefetch keeps buffered.
pub const PRIORITY_BUFFER_SECONDS: u64 = 120;

/// Clamp for open-ended and header-less range responses (512 KiB).
pub const STARTUP_PROBE_CLAMP_BYTES: u64 = 512 * 1024;

/// Byte distance beyond which a request counts as a seek (4 MiB).
pub const SEEK_THRESHOLD_BYTES: u64 = 4 * 1024 * 1024;

/// Seconds of warmup before seek detection may engage.
pub const SEEK_WARMUP_SECONDS: u64 = 3;

/// Requests seen during warmup before seek detection may engage.
pub const SEEK_WARMUP_REQUESTS: u32 = 3;

/// Consecutive sequential serves before seek detection may engage.
pub const SEEK_STABLE_SEQUENTIAL_HITS: u32 = 2;

/// Retries per chunk fetch beyond the first attempt.
pub const MAX_RETRIES: u32 = 3;

/// Base of the linear retry backoff: `500 ms * (attempt + 1)`.
pub const RETRY_BACKOFF_UNIT_MS: u64 = 500;

/// Chunks the downloader keeps around a seek target when aborting work
/// outside the new playback window.
pub const SEEK_WINDOW_CHUNKS: usize = 32;

/// Chunks prefetched ahead of playback before a bitrate estimate exists.
pub const DEFAULT_PREFETCH_CHUNKS: u64 = 20;

/// Top-level configuration for the proxy engine.
#[derive(Debug, Clone)]
pub struct EngineConfig {
    /// Size of each download chunk in bytes.
    pub chunk_size: u64,
    /// Maximum number of concurrent download tasks.
    pub max_concurrency: u32,
    /// Directory used for on-disk cache files.
    pub cache_dir: String,
}

impl Default for EngineConfig {
    /// 2 MiB chunks, 6 workers, no cache directory.
    fn default() -> (r: EngineConfig)
        ensures
            r.chunk_size == DEFAULT_CHUNK_SIZE,
            r.max_concurrency == DEFAULT_MAX_CONCURRENCY,
            r.cache_dir@ == Seq::<char>::empty(),
    {
        EngineConfig { chunk_size: 2 * 1024 * 1024, max_concurrency: 6, cache_dir: String::new() }
    }
}

} // verus!
