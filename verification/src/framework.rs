//! The framework façade: the write path (`command`) and the read path
//! (`query`).
//!
//! `command` loads the aggregate, handles the command, persists the new
//! events, updates every wired read-model projection and fires the
//! registered callbacks; any step's failure short-circuits and is
//! returned, and nothing after a failed step executes.  `query` resolves
//! the read-model store the query declares and invokes the query's
//! handler with it.

use vstd::prelude::*;

use crate::aggregate::{lemma_replay_version, replay, Aggregate};
use crate::command::Command;
use crate::error::FrameworkError;
use crate::event::{
    last_version, lemma_wf_log_last_version, versions_continue, Event, EventStore, EventTypeId,
};
use crate::event_listener::{callback_accepts, callback_rejects, EventListener};
use crate::query::{Query, QueryHandler};
use crate::read_model::{HasStore, ReadModelStore, ReadModelStores};
use crate::repository::{
    reads_available, snapshots_consistent, storage_available, AggregateRepository,
};
use crate::snapshot::SnapshotStore;

verus! {

/// What a command produces against a given history: the events that
/// handling it on the replayed state yields, or the domain error that
/// rejects it.
pub open spec fn command_events<A: Aggregate>(log: Seq<A::Event>, command: A::Command) -> Result<
    Seq<A::Event>,
    FrameworkError,
> {
    replay(A::initial_spec(), log).handle_spec(command)
}

/// Orchestrates one aggregate type, its event log, its snapshot cache,
/// the wired set of read-model stores, and the callback registry.
pub struct Framework<A, ES, SS, R, F> where
    A: Aggregate,
    ES: EventStore<A::Event>,
    SS: SnapshotStore<A>,
    R: ReadModelStores<A::Event>,
    F: Fn(&A::Event) -> Result<(), FrameworkError>,
 {
    repository: AggregateRepository<A, ES, SS>,
    read_model_stores: R,
    event_listener: EventListener<A::Event, F>,
}

impl<A, ES, SS, R, F> Framework<A, ES, SS, R, F> where
    A: Aggregate,
    ES: EventStore<A::Event>,
    SS: SnapshotStore<A>,
    R: ReadModelStores<A::Event>,
    F: Fn(&A::Event) -> Result<(), FrameworkError>,
 {
    /// Every part is well formed and every cached snapshot is a true
    /// prefix replay of the persisted history.
    pub closed spec fn inv(self) -> bool {
        &&& self.repository.inv()
        &&& self.read_model_stores.inv()
        &&& self.event_listener.inv()
    }

    /// The persisted history of one aggregate id.
    pub closed spec fn log_at(self, aggregate_id: u64) -> Seq<A::Event> {
        self.repository.log_at(aggregate_id)
    }

    /// The cached snapshot for one aggregate id, if any.
    pub closed spec fn snapshot_at(self, aggregate_id: u64) -> Option<A> {
        self.repository.snapshot_at(aggregate_id)
    }

    /// Whether the snapshot store retains what is saved to it.
    pub closed spec fn snapshots_cached(self) -> bool {
        self.repository.snapshots_cached()
    }

    /// The wired set of read-model stores.
    pub closed spec fn projections(self) -> R {
        self.read_model_stores
    }

    /// The callback registered for a tag, if any.
    pub closed spec fn callback_for(self, event_type_id: EventTypeId) -> Option<F> {
        self.event_listener.callback_for(event_type_id)
    }

    /// Wires a framework from an event store, a snapshot store and a set
    /// of read-model stores.  The stores must be mutually consistent;
    /// fresh (empty) stores are.
    pub fn new(event_store: ES, snapshot_store: SS, read_model_stores: R) -> (r: Self)
        requires
            event_store.inv(),
            snapshot_store.inv(),
            snapshots_consistent::<A, ES, SS>(event_store, snapshot_store),
            read_model_stores.inv(),
        ensures
            r.inv(),
            forall|id: u64| #[trigger] r.log_at(id) == event_store.log_at(id),
            forall|id: u64| #[trigger] r.snapshot_at(id) == snapshot_store.snapshot_at(id),
            r.snapshots_cached() == SS::caches(),
            r.projections() == read_model_stores,
            forall|t: EventTypeId| #[trigger] r.callback_for(t) is None,
    {
        Framework {
            repository: AggregateRepository::new(event_store, snapshot_store),
            read_model_stores,
            event_listener: EventListener::new(),
        }
    }

    /// Registers `callback` for events tagged `event_type_id`,
    /// overwriting any callback previously registered for that tag.
    pub fn register_event_callback(&mut self, event_type_id: EventTypeId, callback: F)
        requires
            old(self).inv(),
            forall|e: &A::Event| call_requires(callback, (e,)),
        ensures
            final(self).inv(),
            final(self).callback_for(event_type_id) == Some(callback),
            forall|t: EventTypeId|
                t != event_type_id ==> #[trigger] final(self).callback_for(t) == old(
                    self,
                ).callback_for(t),
            forall|id: u64| #[trigger] final(self).log_at(id) == old(self).log_at(id),
            forall|id: u64| #[trigger] final(self).snapshot_at(id) == old(self).snapshot_at(id),
            final(self).projections() == old(self).projections(),
            final(self).snapshots_cached() == old(self).snapshots_cached(),
    {
        self.event_listener.register_callback(event_type_id, callback)
    }

    /// The write path: loads the aggregate for the command's target id,
    /// handles the command, persists the produced events, refreshes the
    /// snapshot, updates every wired read-model store and dispatches the
    /// events to the registered callbacks.  Any step's failure
    /// short-circuits; what an earlier step made durable stays.
    pub fn command(&mut self, command: A::Command) -> (r: Result<(), FrameworkError>)
        requires
            old(self).inv(),
        ensures
            final(self).inv(),
            ({
                let id = command.aggregate_id_spec();
                let old_log = old(self).log_at(id);
                let outcome = command_events::<A>(old_log, command);
                match r {
                    Ok(()) => outcome matches Ok(events) && {
                        &&& versions_continue(events, last_version(old_log))
                        &&& final(self).log_at(id) == old_log + events
                        &&& R::update_ok(
                            old(self).projections(),
                            final(self).projections(),
                            id,
                            events,
                        )
                        &&& forall|k: int|
                            0 <= k < events.len() && (#[trigger] old(self).callback_for(
                                events[k].type_id_spec(),
                            )) is Some ==> callback_accepts(
                                old(self).callback_for(events[k].type_id_spec())->Some_0,
                                events[k],
                            )
                        &&& final(self).snapshot_at(id) == if old(self).snapshots_cached() {
                            Some(replay(A::initial_spec(), old_log + events))
                        } else {
                            old(self).snapshot_at(id)
                        }
                    },
                    Err(e) => {
                        // Failed before anything became durable: a storage
                        // failure while loading or appending, or the domain
                        // rejection of the command, surfaced as-is.
                        ||| ({
                            &&& final(self).log_at(id) == old_log
                            &&& final(self).snapshot_at(id) == old(self).snapshot_at(id)
                            &&& final(self).projections() == old(self).projections()
                            &&& (((e == FrameworkError::DatabaseError
                                || e == FrameworkError::SerializationError)
                                && !storage_available::<A, ES, SS>(id)) || outcome == Err::<
                                Seq<A::Event>,
                                FrameworkError,
                            >(e))
                        })
                        // The append is durable; a later step failed.
                        ||| (outcome matches Ok(events) && {
                            &&& final(self).log_at(id) == old_log + events
                            &&& versions_continue(events, last_version(old_log))
                            &&& ({
                                // refreshing the snapshot failed: nothing
                                // was projected or dispatched
                                ||| ({
                                    &&& (e == FrameworkError::DatabaseError
                                        || e == FrameworkError::SerializationError)
                                    &&& !storage_available::<A, ES, SS>(id)
                                    &&& final(self).snapshot_at(id) == old(self).snapshot_at(id)
                                    &&& final(self).projections() == old(self).projections()
                                })
                                // a projection or callback failed after the
                                // snapshot was refreshed
                                ||| ({
                                    &&& final(self).snapshot_at(id) == if old(
                                        self,
                                    ).snapshots_cached() {
                                        Some(replay(A::initial_spec(), old_log + events))
                                    } else {
                                        old(self).snapshot_at(id)
                                    }
                                    &&& (R::update_err(
                                        old(self).projections(),
                                        final(self).projections(),
                                        id,
                                        events,
                                        e,
                                    ) || (R::update_ok(
                                        old(self).projections(),
                                        final(self).projections(),
                                        id,
                                        events,
                                    ) && exists|k: int|
                                        0 <= k < events.len() && ((#[trigger] old(
                                            self,
                                        ).callback_for(events[k].type_id_spec())) matches Some(f)
                                            && callback_rejects(f, events[k], e))))
                                })
                            })
                        })
                    },
                }
            }),
            forall|other: u64|
                other != command.aggregate_id_spec() ==> #[trigger] final(self).log_at(other)
                    == old(self).log_at(other),
            forall|other: u64|
                other != command.aggregate_id_spec() ==> #[trigger] final(self).snapshot_at(other)
                    == old(self).snapshot_at(other),
            forall|t: EventTypeId|
                #[trigger] final(self).callback_for(t) == old(self).callback_for(t),
            final(self).snapshots_cached() == old(self).snapshots_cached(),
            // durability: when the store classes answer reads and accept
            // saves, a failure after the command produced events never
            // rolls the append back — the caller may treat the command
            // as applied with possibly stale projections
            ({
                let id = command.aggregate_id_spec();
                let old_log = old(self).log_at(id);
                let outcome = command_events::<A>(old_log, command);
                (r is Err && reads_available::<A, ES, SS>(id) && (forall|evs: Seq<A::Event>|
                    #[trigger] ES::save_available(id, evs))) ==> (outcome matches Ok(events)
                    ==> final(self).log_at(id) == old_log + events)
            }),
    {
        let aggregate_id = command.aggregate_id();
        let ghost old_log = self.log_at(aggregate_id);
        proof {
            self.repository.lemma_log_well_formed(aggregate_id);
            lemma_wf_log_last_version(old_log);
            lemma_replay_version(A::initial_spec(), old_log);
            A::lemma_initial_version();
        }
        let aggregate = match self.repository.read(aggregate_id) {
            Ok(a) => a,
            Err(e) => {
                return Err(e);
            },
        };
        proof {
            A::lemma_handle_versions(aggregate, command);
            assert(aggregate.version_spec() == last_version(old_log));
        }
        let events = match aggregate.handle(command) {
            Ok(events) => events,
            Err(e) => {
                return Err(e);
            },
        };
        match self.repository.save(aggregate_id, &events) {
            Ok(()) => {},
            Err(e) => {
                proof {
                    assert(e != FrameworkError::ConcurrencyError);
                }
                return Err(e);
            },
        }
        let ghost produced = events@;
        match self.event_listener.handle_events(
            &mut self.read_model_stores,
            aggregate_id,
            events,
        ) {
            Ok(()) => Ok(()),
            Err(e) => {
                proof {
                    if !R::update_err(
                        old(self).read_model_stores,
                        self.read_model_stores,
                        aggregate_id,
                        produced,
                        e,
                    ) {
                        let k = choose|k: int|
                            0 <= k < produced.len() && ((#[trigger] self.event_listener.callback_for(
                                produced[k].type_id_spec(),
                            )) matches Some(f) && callback_rejects(f, produced[k], e));
                        assert(old(self).callback_for(produced[k].type_id_spec())
                            == self.event_listener.callback_for(produced[k].type_id_spec()));
                    }
                }
                Err(e)
            },
        }
    }

    /// The read path: resolves the read-model store the query's handler
    /// declares and invokes the handler with it.  A query naming a store
    /// type that was never wired in fails with `NoSuchReadModelStore`.
    pub fn query<Q: Query>(&self, query: Q) -> (r: Result<
        <Q::Handler as QueryHandler<Q>>::Output,
        FrameworkError,
    >) where R: HasStore<<Q::Handler as QueryHandler<Q>>::ReadModelStore>
        requires
            self.inv(),
            self.projections().find_inv(),
        ensures
            match self.projections().store_spec() {
                Some(store) => r == <Q::Handler as QueryHandler<Q>>::handle_spec(store, query),
                None => r == Err::<<Q::Handler as QueryHandler<Q>>::Output, FrameworkError>(
                    FrameworkError::NoSuchReadModelStore,
                ),
            },
    {
        let store = self.read_model_stores.find();
        match store {
            Some(store) => <Q::Handler as QueryHandler<Q>>::handle(store, query),
            None => Err(FrameworkError::NoSuchReadModelStore),
        }
    }
}

} // verus!
