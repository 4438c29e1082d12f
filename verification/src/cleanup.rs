//! Deferred cleanup: the identifiers of channels that a selection pass found
//! disconnected, kept until a thread that may change the index removes them.
//!
//! A pass holds the index for reading only, so it cannot remove a dead channel
//! itself. It leaves the identifier here instead, and the next receive drains
//! the set before it does anything else.

use crate::lookup::drain_ids;
use crate::sync::{held_mut, lock};
use std::collections::HashSet;
use std::sync::atomic::{AtomicBool, Ordering};
use std::sync::Mutex;
use vstd::prelude::*;

verus! {

/// The set of channels that wait to be removed, with a flag that spares the
/// common case the lock.
pub struct Cleanup {
    dirty: AtomicBool,
    ids: Mutex<HashSet<u32, ahash::RandomState>>,
}

impl Cleanup {
    /// A cleanup set with nothing to do.
    pub fn new() -> (cleanup: Self) {
        Cleanup { dirty: AtomicBool::new(false), ids: Mutex::new(HashSet::default()) }
    }

    /// Notes that the channel with identifier `id` is to be removed.
    pub fn schedule(&self, id: u32) {
        let mut guard = lock(&self.ids);
        held_mut(&mut guard).insert(id);
        self.dirty.store(true, Ordering::Relaxed);
    }

    /// Hands out the identifiers noted since the last call, each once, and
    /// forgets them. While nothing was noted this takes no lock.
    pub fn take(&self) -> (ids: Vec<u32>)
        ensures
            ids@.no_duplicates(),
    {
        if self.dirty.fetch_and(false, Ordering::Relaxed) {
            let mut guard = lock(&self.ids);
            drain_ids(held_mut(&mut guard))
        } else {
            Vec::new()
        }
    }
}

} // verus!
