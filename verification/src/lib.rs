//! Core of a local HTTP streaming proxy for remote media files.
//!
//! A player issues byte-range requests against a loopback endpoint; the
//! engine fetches the underlying content from an origin that supports HTTP
//! range requests, caches it chunk by chunk, and serves assembled ranges
//! back.  This crate holds the verified core: chunk geometry, the chunked
//! cache with its completion bitmap, the warmup planner, the downloader's
//! scheduling state, the session state machine, the session registry, and
//! the range-header contract of the HTTP edge.
pub mod cache;
pub mod config;
pub mod detect;
pub mod downloader;
pub mod errors;
pub mod geometry;
pub mod range;
pub mod registry;
pub mod seek;
pub mod session;
pub mod source;
pub mod stats;
pub mod warmup;
