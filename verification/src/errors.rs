//! Error taxonomy of the engine.
use vstd::prelude::*;

verus! {

/// Every failure the engine can report to a caller.
#[derive(Clone, Copy, Debug, PartialEq, Eq, Structural)]
pub enum ProxyError {
    /// A control call arrived before the engine was initialized.
    NotInitialized,
    /// The named session does not exist.
    NotFound,
    /// The origin has zero length or does not support range requests.
    Unsupported,
    /// The origin rejected the credentials (HTTP 401/403/412).
    AuthRejected,
    /// A transport or other origin failure.
    FetchFailed,
    /// A required chunk was still missing after waiting for its download.
    CacheMiss,
    /// `start >= end` or a violated range precondition.
    InvalidRange,
    /// A cache write inconsistency or an allocation failure.
    Internal,
}

} // verus!
