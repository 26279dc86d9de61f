//! A runtime guard that checks that a code location is not executed more often
//! than a caller-chosen ceiling during the life of a process.
//!
//! Each invocation of [`at_most`] captures a fingerprint of the current call
//! chain, records one hit for that fingerprint in a shared registry, and
//! reports [`FrequencyExceeded`] as soon as the accumulated hit count passes
//! the given limit.

use vstd::prelude::*;

pub mod fingerprint;
pub mod registry;
pub mod laws;
pub mod shared;

use crate::fingerprint::Fingerprint;
use crate::shared::SharedRegistry;

verus! {

/// The single failure of the guard: a call site was hit more often than its
/// declared limit allows.
#[derive(Debug, PartialEq, Eq)]
pub struct FrequencyExceeded {
    /// The hit count the registry held for the call site when it failed.
    pub count: usize,
    /// The limit the call site declared.
    pub limit: usize,
}

/// Whether a call site whose hit count has reached `count` is still within
/// its declared `limit`.
pub open spec fn within_limit(count: nat, limit: nat) -> bool {
    count <= limit
}

/// Compares a hit count against a limit: the call is allowed exactly when
/// the count is within the limit, and refused with the offending count
/// otherwise.
pub fn enforce(count: usize, limit: usize) -> (r: Result<(), FrequencyExceeded>)
    ensures
        r is Ok <==> within_limit(count as nat, limit as nat),
        r matches Err(e) ==> e == (FrequencyExceeded { count, limit }),
{
    if count <= limit {
        Ok(())
    } else {
        Err(FrequencyExceeded { count, limit })
    }
}

/// Checks that the call site this function is invoked from has not run more
/// than `limit` times over the life of `registry`: the current call chain is
/// fingerprinted, one hit is recorded for it, and the call is refused as
/// soon as the accumulated count passes `limit`.
///
/// A limit of zero refuses the very first call; a limit of `usize::MAX` can
/// never be exceeded. On failure the error carries the offending count,
/// which is always above the limit.
pub fn at_most(registry: &SharedRegistry, limit: usize) -> (r: Result<(), FrequencyExceeded>)
    ensures
        limit == 0 ==> r is Err,
        limit == usize::MAX ==> r is Ok,
        r matches Err(e) ==> e.limit == limit && e.count > limit,
{
    let fp = Fingerprint::new(crate::fingerprint::raw_frames());
    let count = registry.record_and_get(fp);
    enforce(count, limit)
}

} // verus!
