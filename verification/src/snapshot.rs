//! Snapshots: cached point-in-time aggregate states.
//!
//! A snapshot is purely an optimization.  Correctness never depends on its
//! presence or freshness: replay recovers the state of any aggregate from
//! the event log alone, and a snapshot only shortens the replay.

use vstd::prelude::*;

use crate::aggregate::Aggregate;
use crate::error::FrameworkError;
use crate::journal::{journal_lookup, lemma_journal_lookup_found, lemma_journal_lookup_missing};

verus! {

/// A cache of one point-in-time state per aggregate id.
///
/// A store may decline to cache (see [`DummySnapshotStore`]): `caches`
/// says whether a successful save is observable afterwards.  Either way a
/// read returns exactly what the cache holds.
pub trait SnapshotStore<A: Aggregate>: Sized {
    /// The store's internal well-formedness condition.
    spec fn inv(self) -> bool;

    /// The cached state for one aggregate id, if any.
    spec fn snapshot_at(self, aggregate_id: u64) -> Option<A>;

    /// Whether this store class retains what is saved to it.
    spec fn caches() -> bool;

    /// Whether this store class answers every read of `aggregate_id`.
    spec fn read_available(aggregate_id: u64) -> bool;

    /// Whether this store class accepts every save for `aggregate_id`.
    spec fn save_available(aggregate_id: u64) -> bool;

    /// Returns the cached state for `aggregate_id`, or `None` if nothing
    /// is cached.
    fn read(&self, aggregate_id: u64) -> (r: Result<Option<A>, FrameworkError>)
        requires
            self.inv(),
        ensures
            match r {
                Ok(snapshot) => snapshot == self.snapshot_at(aggregate_id),
                Err(e) => (e == FrameworkError::DatabaseError
                    || e == FrameworkError::SerializationError) && !Self::read_available(
                    aggregate_id,
                ),
            },
    ;

    /// Overwrites the cached state for `aggregate_id`.  Failure is
    /// non-fatal to the write path: the event log, not the snapshot, is
    /// the source of truth.
    fn save(&mut self, aggregate_id: u64, aggregate: &A) -> (r: Result<(), FrameworkError>)
        requires
            old(self).inv(),
        ensures
            final(self).inv(),
            match r {
                Ok(()) => {
                    &&& final(self).snapshot_at(aggregate_id) == if Self::caches() {
                        Some(*aggregate)
                    } else {
                        old(self).snapshot_at(aggregate_id)
                    }
                    &&& forall|id: u64|
                        id != aggregate_id ==> #[trigger] final(self).snapshot_at(id) == old(
                            self,
                        ).snapshot_at(id)
                },
                Err(e) => {
                    &&& *final(self) == *old(self)
                    &&& (e == FrameworkError::DatabaseError
                        || e == FrameworkError::SerializationError)
                    &&& !Self::save_available(aggregate_id)
                },
            },
    ;
}

/// A snapshot store that caches nothing: every read finds no snapshot and
/// every save succeeds by discarding its argument.  Replay then always
/// starts from the default state.
pub struct DummySnapshotStore;

impl<A: Aggregate> SnapshotStore<A> for DummySnapshotStore {
    open spec fn inv(self) -> bool {
        true
    }

    open spec fn snapshot_at(self, aggregate_id: u64) -> Option<A> {
        None
    }

    open spec fn caches() -> bool {
        false
    }

    open spec fn read_available(aggregate_id: u64) -> bool {
        true
    }

    open spec fn save_available(aggregate_id: u64) -> bool {
        true
    }

    fn read(&self, aggregate_id: u64) -> (r: Result<Option<A>, FrameworkError>) {
        Ok(None)
    }

    fn save(&mut self, aggregate_id: u64, aggregate: &A) -> (r: Result<(), FrameworkError>) {
        Ok(())
    }
}

/// A snapshot cache held in memory as an append-only journal of
/// `(aggregate id, state)` entries; the last entry for an id is its
/// current snapshot.  The reference implementation of [`SnapshotStore`];
/// every operation succeeds.
pub struct MemorySnapshotStore<A: Aggregate> {
    entries: Vec<(u64, A)>,
}

impl<A: Aggregate> MemorySnapshotStore<A> {
    /// An empty snapshot cache.
    pub fn new() -> (r: Self)
        ensures
            r.inv(),
            forall|id: u64| #[trigger] r.snapshot_at(id) is None,
    {
        let r = MemorySnapshotStore { entries: Vec::new() };
        proof {
            assert forall|id: u64| #[trigger] r.snapshot_at(id) is None by {
                lemma_journal_lookup_missing(r.entries@, id);
            }
        }
        r
    }
}

impl<A: Aggregate> SnapshotStore<A> for MemorySnapshotStore<A> {
    open spec fn inv(self) -> bool {
        true
    }

    closed spec fn snapshot_at(self, aggregate_id: u64) -> Option<A> {
        journal_lookup(self.entries@, aggregate_id)
    }

    open spec fn caches() -> bool {
        true
    }

    open spec fn read_available(aggregate_id: u64) -> bool {
        true
    }

    open spec fn save_available(aggregate_id: u64) -> bool {
        true
    }

    #[verifier::loop_isolation(false)]
    fn read(&self, aggregate_id: u64) -> (r: Result<Option<A>, FrameworkError>) {
        let n = self.entries.len();
        let mut i: usize = n;
        while i > 0
            invariant
                i <= n,
                forall|k: int| i <= k < n ==> (#[trigger] self.entries@[k]).0 != aggregate_id,
            decreases i,
        {
            i -= 1;
            if self.entries[i].0 == aggregate_id {
                proof {
                    lemma_journal_lookup_found(self.entries@, aggregate_id, i as int);
                }
                return Ok(Some(self.entries[i].1.dup()));
            }
        }
        proof {
            lemma_journal_lookup_missing(self.entries@, aggregate_id);
        }
        Ok(None)
    }

    fn save(&mut self, aggregate_id: u64, aggregate: &A) -> (r: Result<(), FrameworkError>) {
        let ghost old_entries = self.entries@;
        self.entries.push((aggregate_id, aggregate.dup()));
        proof {
            assert(self.entries@.drop_last() =~= old_entries);
        }
        Ok(())
    }
}

} // verus!
