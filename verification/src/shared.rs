//! A process-wide view of the hit registry: one registry shared by every
//! thread, guarded by a lock.

use vstd::prelude::*;
use vstd::rwlock::{RwLock, RwLockPredicate};

use crate::fingerprint::Fingerprint;
use crate::registry::Registry;

verus! {

/// What the lock admits: only well-formed registries are ever stored.
pub struct WellFormed {}

impl RwLockPredicate<Registry> for WellFormed {
    open spec fn inv(self, v: Registry) -> bool {
        v.wf()
    }
}

/// A registry that any number of threads may record hits in concurrently.
/// Hits for the same call site are serialized by the lock, so the counts
/// handed back for one call site are consecutive: no two hits observe the
/// same count, and no count is skipped.
pub struct SharedRegistry {
    lock: RwLock<Registry, WellFormed>,
}

impl SharedRegistry {
    /// Creates a shared registry in which no call site has been hit yet.
    pub fn new() -> SharedRegistry {
        SharedRegistry { lock: RwLock::new(Registry::new(), Ghost(WellFormed {})) }
    }

    /// Records one hit for the call site `fp` and returns the hit count the
    /// registry held for it right after the hit. The count is at least one;
    /// nothing more can be promised of it, since other threads may record
    /// hits for the same call site at any moment.
    pub fn record_and_get(&self, fp: Fingerprint) -> (count: usize)
        ensures
            count >= 1,
    {
        let (mut registry, handle) = self.lock.acquire_write();
        let count = registry.record_and_get(fp);
        handle.release_write(registry);
        count
    }
}

} // verus!
