//! The aggregate repository: replay on read, append plus snapshot refresh
//! on save.

use core::marker::PhantomData;

use vstd::prelude::*;

use crate::aggregate::{
    apply_events, lemma_replay_determinism, lemma_replay_version, replay, Aggregate,
};
use crate::error::FrameworkError;
use crate::event::{
    last_version, lemma_events_after_is_suffix, lemma_wf_log_last_version, versions_continue,
    wf_log, Event, EventStore,
};
use crate::snapshot::SnapshotStore;

verus! {

/// Every snapshot the snapshot store holds is a true point-in-time state:
/// the replay of a prefix of the event store's history for the same id,
/// taken at the snapshot's own version.
pub open spec fn snapshots_consistent<
    A: Aggregate,
    ES: EventStore<A::Event>,
    SS: SnapshotStore<A>,
>(event_store: ES, snapshot_store: SS) -> bool {
    forall|id: u64|
        #[trigger] snapshot_store.snapshot_at(id) matches Some(s) ==> {
            &&& s.version_spec() <= event_store.log_at(id).len()
            &&& s == replay(
                A::initial_spec(),
                event_store.log_at(id).take(s.version_spec() as int),
            )
        }
}

/// Whether both store classes answer every read a repository makes for
/// `aggregate_id`.  With the in-memory stores this holds for every id:
/// the repository then owes success on every read.
pub open spec fn reads_available<A: Aggregate, ES: EventStore<A::Event>, SS: SnapshotStore<A>>(
    aggregate_id: u64,
) -> bool {
    &&& ES::read_available(aggregate_id)
    &&& SS::read_available(aggregate_id)
}

/// Whether every storage operation a repository makes for `aggregate_id`
/// is guaranteed to succeed by the store classes it is wired from.  With
/// the in-memory stores this holds for every id: the repository then owes
/// success on every read and on every save whose versions continue the
/// history.
pub open spec fn storage_available<A: Aggregate, ES: EventStore<A::Event>, SS: SnapshotStore<A>>(
    aggregate_id: u64,
) -> bool {
    &&& reads_available::<A, ES, SS>(aggregate_id)
    &&& forall|events: Seq<A::Event>| #[trigger] ES::save_available(aggregate_id, events)
    &&& SS::save_available(aggregate_id)
}

/// Rebuilds aggregates from snapshot plus event replay, and persists new
/// events followed by a refreshed snapshot.
pub struct AggregateRepository<A: Aggregate, ES: EventStore<A::Event>, SS: SnapshotStore<A>> {
    event_store: ES,
    snapshot_store: SS,
    marker: PhantomData<A>,
}

impl<A: Aggregate, ES: EventStore<A::Event>, SS: SnapshotStore<A>> AggregateRepository<A, ES, SS> {
    /// Both stores are well formed and every cached snapshot is a true
    /// prefix replay of the persisted history.
    pub closed spec fn inv(self) -> bool {
        &&& self.event_store.inv()
        &&& self.snapshot_store.inv()
        &&& snapshots_consistent::<A, ES, SS>(self.event_store, self.snapshot_store)
    }

    /// The persisted history of one aggregate id.
    pub closed spec fn log_at(self, aggregate_id: u64) -> Seq<A::Event> {
        self.event_store.log_at(aggregate_id)
    }

    /// The cached snapshot for one aggregate id, if any.
    pub closed spec fn snapshot_at(self, aggregate_id: u64) -> Option<A> {
        self.snapshot_store.snapshot_at(aggregate_id)
    }

    /// Whether the snapshot store retains what is saved to it.
    pub open spec fn snapshots_cached(self) -> bool {
        SS::caches()
    }

    /// Every persisted history carries versions `1, 2, ...` in order.
    pub proof fn lemma_log_well_formed(&self, aggregate_id: u64)
        requires
            self.inv(),
        ensures
            wf_log(self.log_at(aggregate_id)),
    {
        self.event_store.lemma_logs_well_formed(aggregate_id);
    }

    /// Wires a repository from an event store and a snapshot store.  The
    /// stores must be mutually consistent; fresh (empty) stores are.
    pub fn new(event_store: ES, snapshot_store: SS) -> (r: Self)
        requires
            event_store.inv(),
            snapshot_store.inv(),
            snapshots_consistent::<A, ES, SS>(event_store, snapshot_store),
        ensures
            r.inv(),
            forall|id: u64| #[trigger] r.log_at(id) == event_store.log_at(id),
            forall|id: u64| #[trigger] r.snapshot_at(id) == snapshot_store.snapshot_at(id),
            r.snapshots_cached() == SS::caches(),
    {
        AggregateRepository { event_store, snapshot_store, marker: PhantomData }
    }

    /// Rebuilds the aggregate for `aggregate_id`: starts from the cached
    /// snapshot (or the default state if none), then applies every
    /// persisted event past the snapshot's version, in ascending version
    /// order.  The result reflects every event ever persisted for the id,
    /// whether or not a snapshot exists.
    pub fn read(&self, aggregate_id: u64) -> (r: Result<A, FrameworkError>)
        requires
            self.inv(),
        ensures
            match r {
                Ok(a) => a == replay(A::initial_spec(), self.log_at(aggregate_id)),
                Err(e) => (e == FrameworkError::DatabaseError
                    || e == FrameworkError::SerializationError) && !reads_available::<
                    A,
                    ES,
                    SS,
                >(aggregate_id),
            },
    {
        let ghost log = self.log_at(aggregate_id);
        proof {
            self.event_store.lemma_logs_well_formed(aggregate_id);
            lemma_wf_log_last_version(log);
        }
        let mut aggregate: A = match self.snapshot_store.read(aggregate_id) {
            Ok(Some(snapshot)) => snapshot,
            Ok(None) => A::initial(),
            Err(e) => {
                return Err(e);
            },
        };
        proof {
            if self.snapshot_at(aggregate_id) is None {
                A::lemma_initial_version();
                assert(log.take(0) =~= Seq::<A::Event>::empty());
            }
            assert(aggregate.version_spec() <= log.len());
            assert(aggregate == replay(A::initial_spec(), log.take(aggregate.version_spec() as int)));
        }
        let from_version = aggregate.version();
        let events = match self.event_store.read(aggregate_id, from_version) {
            Ok(events) => events,
            Err(e) => {
                return Err(e);
            },
        };
        proof {
            lemma_events_after_is_suffix(log, from_version);
            assert(events@ == log.skip(from_version as int));
            assert(versions_continue(events@, from_version)) by {
                assert forall|i: int| 0 <= i < events@.len() implies #[trigger] events@[i].version_spec()
                    == from_version + 1 + i by {
                    assert(events@[i] == log[from_version + i]);
                    assert(log[from_version + i].version_spec() == 0 + 1 + (from_version + i));
                }
            }
        }
        match apply_events(&mut aggregate, &events) {
            Ok(()) => {
                proof {
                    lemma_replay_determinism::<A>(log, from_version as int);
                }
                Ok(aggregate)
            },
            Err(e) => {
                proof {
                    assert(false);
                }
                Err(e)
            },
        }
    }

    /// Persists `events` for `aggregate_id`, then refreshes the snapshot
    /// with the replayed post-save state.
    ///
    /// The event append is all-or-nothing and optimistic: a batch whose
    /// versions do not immediately follow the last persisted version is
    /// rejected whole with `ConcurrencyError` and nothing changes.  After
    /// a successful append the events stay committed even if refreshing
    /// the snapshot fails: the snapshot is an optimization, the log is
    /// the source of truth.
    pub fn save(&mut self, aggregate_id: u64, events: &Vec<A::Event>) -> (r: Result<
        (),
        FrameworkError,
    >)
        requires
            old(self).inv(),
        ensures
            final(self).inv(),
            match r {
                Ok(()) => {
                    &&& versions_continue(events@, last_version(old(self).log_at(aggregate_id)))
                    &&& final(self).log_at(aggregate_id) == old(self).log_at(aggregate_id)
                        + events@
                    &&& final(self).snapshot_at(aggregate_id) == if old(self).snapshots_cached() {
                        Some(replay(A::initial_spec(), final(self).log_at(aggregate_id)))
                    } else {
                        old(self).snapshot_at(aggregate_id)
                    }
                },
                Err(e) => {
                    &&& if e == FrameworkError::ConcurrencyError {
                        &&& *final(self) == *old(self)
                        &&& !versions_continue(
                            events@,
                            last_version(old(self).log_at(aggregate_id)),
                        )
                    } else {
                        &&& (e == FrameworkError::DatabaseError
                            || e == FrameworkError::SerializationError)
                        &&& !storage_available::<A, ES, SS>(aggregate_id)
                        &&& (final(self).log_at(aggregate_id) == old(self).log_at(aggregate_id)
                            || final(self).log_at(aggregate_id) == old(self).log_at(aggregate_id)
                            + events@)
                        // the append is never rolled back: if the event-store
                        // class accepted this batch, the events stayed
                        // committed and only the snapshot refresh failed
                        &&& (versions_continue(
                            events@,
                            last_version(old(self).log_at(aggregate_id)),
                        ) && ES::save_available(aggregate_id, events@) ==> final(self).log_at(
                            aggregate_id,
                        ) == old(self).log_at(aggregate_id) + events@)
                        &&& final(self).snapshot_at(aggregate_id) == old(self).snapshot_at(
                            aggregate_id,
                        )
                    }
                },
            },
            forall|id: u64|
                id != aggregate_id ==> #[trigger] final(self).log_at(id) == old(self).log_at(id),
            forall|id: u64|
                id != aggregate_id ==> #[trigger] final(self).snapshot_at(id) == old(
                    self,
                ).snapshot_at(id),
            final(self).snapshots_cached() == old(self).snapshots_cached(),
    {
        let ghost old_log = self.log_at(aggregate_id);
        match self.event_store.save(aggregate_id, events) {
            Ok(()) => {},
            Err(e) => {
                return Err(e);
            },
        }
        // the post-save state is recomputed by a fresh replay; by replay
        // determinism this equals folding the new events onto the
        // pre-command aggregate, and the re-read keeps the code simple
        let ghost new_log = self.log_at(aggregate_id);
        proof {
            assert(new_log == old_log + events@);
            assert(self.inv()) by {
                assert forall|id: u64|
                    #[trigger] self.snapshot_store.snapshot_at(id) matches Some(s) ==> {
                        &&& s.version_spec() <= self.event_store.log_at(id).len()
                        &&& s == replay(
                            A::initial_spec(),
                            self.event_store.log_at(id).take(s.version_spec() as int),
                        )
                    } by {
                    if self.snapshot_store.snapshot_at(id) is Some && id == aggregate_id {
                        let s = self.snapshot_store.snapshot_at(id)->Some_0;
                        assert(new_log.take(s.version_spec() as int) =~= old_log.take(
                            s.version_spec() as int,
                        ));
                    }
                }
            }
        }
        let aggregate = match self.read(aggregate_id) {
            Ok(a) => a,
            Err(e) => {
                return Err(e);
            },
        };
        let ghost mid = *self;
        let result = match self.snapshot_store.save(aggregate_id, &aggregate) {
            Ok(()) => Ok(()),
            Err(e) => Err(e),
        };
        proof {
            self.event_store.lemma_logs_well_formed(aggregate_id);
            lemma_wf_log_last_version(new_log);
            lemma_replay_version(A::initial_spec(), new_log);
            A::lemma_initial_version();
            assert(aggregate.version_spec() == new_log.len());
            assert(new_log.take(new_log.len() as int) =~= new_log);
            assert forall|id: u64|
                #[trigger] self.snapshot_store.snapshot_at(id) matches Some(s) ==> {
                    &&& s.version_spec() <= self.event_store.log_at(id).len()
                    &&& s == replay(
                        A::initial_spec(),
                        self.event_store.log_at(id).take(s.version_spec() as int),
                    )
                } by {
                if self.snapshot_store.snapshot_at(id) is Some {
                    if !(result is Ok && id == aggregate_id && SS::caches()) {
                        assert(self.snapshot_store.snapshot_at(id)
                            == mid.snapshot_store.snapshot_at(id));
                    }
                }
            }
        }
        result
    }
}

} // verus!
