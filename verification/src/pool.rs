//! The tab pool: a fixed set of long-lived tabs, one for each worker.

use vstd::prelude::*;
use crate::utils::{allowed_delay, random_delay};

verus! {

/// A pool of tabs of type `T`, made once and kept for the whole run. Worker
/// `w` drives the tab in slot `w` and no other, so no two workers ever drive
/// the same tab.
pub struct TabPool<T> {
    tabs: Vec<T>,
    delays: Vec<u64>,
}

/// The slot of the tab that worker `worker` drives in a pool of `size` tabs,
/// if the pool has one for it.
pub open spec fn slot_of(size: nat, worker: nat) -> Option<nat> {
    if worker < size {
        Some(worker)
    } else {
        None
    }
}

/// Two workers that have a tab each have different ones.
pub proof fn lemma_tabs_exclusive(size: nat, a: nat, b: nat)
    requires
        a != b,
        slot_of(size, a) is Some,
        slot_of(size, b) is Some,
    ensures
        slot_of(size, a) != slot_of(size, b),
{
}

impl<T> TabPool<T> {
    /// The tabs, by slot.
    pub closed spec fn tabs(&self) -> Seq<T> {
        self.tabs@
    }

    /// The pauses, in milliseconds, that may follow a tab's release.
    pub closed spec fn delays(&self) -> Seq<u64> {
        self.delays@
    }

    /// A pool of the tabs `tabs`, with the pauses `delays` to pick from
    /// between a tab's release and its reuse.
    pub fn new(tabs: Vec<T>, delays: Vec<u64>) -> (pool: TabPool<T>)
        ensures
            pool.tabs() == tabs@,
            pool.delays() == delays@,
    {
        TabPool { tabs, delays }
    }

    /// Number of tabs.
    pub fn size(&self) -> (size: usize)
        ensures
            size == self.tabs().len(),
    {
        self.tabs.len()
    }

    /// The tab that worker `worker` drives.
    pub fn tab_of(&self, worker: usize) -> (tab: Option<&T>)
        ensures
            match slot_of(self.tabs().len(), worker as nat) {
                Some(slot) => tab == Some(&self.tabs()[slot as int]),
                None => tab is None,
            },
    {
        if worker < self.tabs.len() {
            Some(&self.tabs[worker])
        } else {
            None
        }
    }

    /// The pause, in milliseconds, before a released tab is used again.
    pub fn release_delay(&self) -> (delay: u64)
        ensures
            allowed_delay(self.delays(), delay),
    {
        random_delay(&self.delays)
    }
}

} // verus!
