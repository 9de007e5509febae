use vstd::prelude::*;
use vstd::rwlock::{RwLock, RwLockPredicate};

verus! {

/// The two cached datasets.
#[derive(Clone, Copy, Debug, PartialEq, Eq, Structural)]
pub enum Domain {
    Prices,
    Worlds,
}

/// One serialized dataset, tagged with the domain it belongs to.
pub struct Snapshot {
    pub domain: Domain,
    pub body: String,
}

/// What a slot may hold: only a snapshot of its own domain.
pub struct SlotPred {
    pub domain: Domain,
}

impl RwLockPredicate<Snapshot> for SlotPred {
    open spec fn inv(self, v: Snapshot) -> bool {
        v.domain == self.domain
    }
}

/// The latest serialized snapshot of each domain. Each domain has a lock of
/// its own, so a refresh of one never waits on the other; a reader takes the
/// lock only to copy the current value, and a writer only to swap it.
pub struct SnapshotStore {
    prices: RwLock<Snapshot, SlotPred>,
    worlds: RwLock<Snapshot, SlotPred>,
}

impl SnapshotStore {
    pub closed spec fn wf(&self) -> bool {
        &&& self.prices.pred() == SlotPred { domain: Domain::Prices }
        &&& self.worlds.pred() == SlotPred { domain: Domain::Worlds }
    }

    /// A store that holds the first snapshot of each domain: there is no
    /// empty store to read from.
    pub fn new(prices: String, worlds: String) -> (r: SnapshotStore)
        ensures
            r.wf(),
    {
        SnapshotStore {
            prices: RwLock::new(
                Snapshot { domain: Domain::Prices, body: prices },
                Ghost(SlotPred { domain: Domain::Prices }),
            ),
            worlds: RwLock::new(
                Snapshot { domain: Domain::Worlds, body: worlds },
                Ghost(SlotPred { domain: Domain::Worlds }),
            ),
        }
    }

    fn slot(&self, domain: Domain) -> (r: &RwLock<Snapshot, SlotPred>)
        requires
            self.wf(),
        ensures
            r.pred() == (SlotPred { domain }),
    {
        match domain {
            Domain::Prices => &self.prices,
            Domain::Worlds => &self.worlds,
        }
    }

    /// A copy of the current snapshot of `domain`, taken whole under the
    /// domain's read lock.
    pub fn read(&self, domain: Domain) -> (r: String)
        requires
            self.wf(),
    {
        let handle = self.slot(domain).acquire_read();
        let current = handle.borrow();
        let body = current.body.clone();
        handle.release_read();
        body
    }

    /// Installs `body` as the snapshot of `domain`; the other domain is not
    /// locked. The lock is held only for the swap.
    pub fn replace(&self, domain: Domain, body: String)
        requires
            self.wf(),
    {
        let slot = self.slot(domain);
        let (_previous, handle) = slot.acquire_write();
        handle.release_write(Snapshot { domain, body });
    }
}

} // verus!
