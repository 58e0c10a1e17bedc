//! Read models: projections derived from the event log.
//!
//! A read model is keyed by the same id domain as its source aggregate's
//! events.  It is derived, never authoritative: it can always be rebuilt
//! by replaying the full event history against a default read model.
//! Routing is by closed tagged dispatch: each read model declares which
//! event-type tags it consumes, and the router folds exactly the consumed
//! events, in production order, into the stored projection.

use vstd::prelude::*;

use crate::error::FrameworkError;
use crate::event::{Event, EventTypeId};
use crate::journal::{journal_lookup, lemma_journal_lookup_found, lemma_journal_lookup_missing};

verus! {

/// A projection that folds consumed events into derived state.
pub trait ReadModel: Sized {
    /// The events this projection is derived from.
    type Event: Event;

    /// The default state a projection starts from.
    spec fn initial_spec() -> Self;

    /// Which event-type tags this projection consumes.
    spec fn consumes_spec(event_type: EventTypeId) -> bool;

    /// How one consumed event folds into the projection.
    spec fn apply_spec(self, event: Self::Event) -> Result<Self, FrameworkError>;

    /// The default state a projection starts from.
    fn initial() -> (m: Self)
        ensures
            m == Self::initial_spec(),
    ;

    /// Which event-type tags this projection consumes.
    fn consumes(event_type: EventTypeId) -> (r: bool)
        ensures
            r == Self::consumes_spec(event_type),
    ;

    /// Folds one event into the projection; on error the projection is
    /// left untouched.
    fn apply_event(&mut self, event: &Self::Event) -> (r: Result<(), FrameworkError>)
        ensures
            match r {
                Ok(()) => old(self).apply_spec(*event) == Ok::<Self, FrameworkError>(
                    *final(self),
                ),
                Err(e) => *final(self) == *old(self) && old(self).apply_spec(*event) == Err::<
                    Self,
                    FrameworkError,
                >(e),
            },
    ;

    /// An exact copy of the projection.
    fn dup(&self) -> (r: Self)
        ensures
            r == *self,
    ;
}

/// The events of `events` whose type tag the projection `M` consumes.
pub open spec fn consumed_events<M: ReadModel>(events: Seq<M::Event>) -> Seq<M::Event> {
    events.filter(|e: M::Event| M::consumes_spec(e.type_id_spec()))
}

/// The projection reached by folding `events`, in order, into `m`; or the
/// first error one of the folds surfaces.
pub open spec fn project<M: ReadModel>(m: M, events: Seq<M::Event>) -> Result<M, FrameworkError>
    decreases events.len(),
{
    if events.len() == 0 {
        Ok(m)
    } else {
        match m.apply_spec(events[0]) {
            Ok(next) => project(next, events.skip(1)),
            Err(e) => Err(e),
        }
    }
}

/// Folding one more event applies it to the folded projection.
pub proof fn lemma_project_push<M: ReadModel>(m: M, events: Seq<M::Event>, event: M::Event)
    ensures
        project(m, events.push(event)) == match project(m, events) {
            Ok(mid) => mid.apply_spec(event),
            Err(e) => Err(e),
        },
    decreases events.len(),
{
    if events.len() == 0 {
        assert(events.push(event)[0] == event);
        assert(events.push(event).skip(1) =~= Seq::<M::Event>::empty());
        match m.apply_spec(event) {
            Ok(next) => {
                assert(project(next, events.push(event).skip(1)) == Ok::<M, FrameworkError>(next));
            },
            Err(_) => {},
        }
    } else {
        assert(events.push(event)[0] == events[0]);
        assert(events.push(event).skip(1) =~= events.skip(1).push(event));
        match m.apply_spec(events[0]) {
            Ok(next) => {
                lemma_project_push(next, events.skip(1), event);
            },
            Err(_) => {},
        }
    }
}

/// Projecting a concatenated history is projecting the first part, then
/// the second from the intermediate projection.
pub proof fn lemma_project_append<M: ReadModel>(m: M, e1: Seq<M::Event>, e2: Seq<M::Event>)
    ensures
        project(m, e1 + e2) == match project(m, e1) {
            Ok(mid) => project(mid, e2),
            Err(e) => Err(e),
        },
    decreases e1.len(),
{
    if e1.len() == 0 {
        assert(e1 + e2 =~= e2);
    } else {
        assert((e1 + e2)[0] == e1[0]);
        assert((e1 + e2).skip(1) =~= e1.skip(1) + e2);
        match m.apply_spec(e1[0]) {
            Ok(next) => {
                lemma_project_append(next, e1.skip(1), e2);
            },
            Err(_) => {},
        }
    }
}

/// Consumption distributes over concatenation.
pub proof fn lemma_consumed_events_append<M: ReadModel>(e1: Seq<M::Event>, e2: Seq<M::Event>)
    ensures
        consumed_events::<M>(e1 + e2) == consumed_events::<M>(e1) + consumed_events::<M>(e2),
{
    let pred = |e: M::Event| M::consumes_spec(e.type_id_spec());
    Seq::<M::Event>::filter_distributes_over_add(e1, e2, pred);
}

/// Projection completeness: after any two stretches of history, a
/// projection that consumed the first and then the second holds exactly
/// the fold of every consumed event of the whole history, in production
/// order.
pub proof fn lemma_projection_completeness<M: ReadModel>(
    m: M,
    earlier: Seq<M::Event>,
    later: Seq<M::Event>,
)
    ensures
        project(m, consumed_events::<M>(earlier + later)) == match project(
            m,
            consumed_events::<M>(earlier),
        ) {
            Ok(mid) => project(mid, consumed_events::<M>(later)),
            Err(e) => Err(e),
        },
{
    lemma_consumed_events_append::<M>(earlier, later);
    lemma_project_append(m, consumed_events::<M>(earlier), consumed_events::<M>(later));
}

/// Durable storage for one projection type, keyed by aggregate id.
pub trait ReadModelStore: Sized {
    /// The projection this store persists.
    type ReadModel: ReadModel;

    /// The store's internal well-formedness condition.
    spec fn inv(self) -> bool;

    /// The persisted projection for one id, if any.
    spec fn model_at(self, id: u64) -> Option<Self::ReadModel>;

    /// Whether this store class answers every read of `id`.
    spec fn read_available(id: u64) -> bool;

    /// Whether this store class accepts every save for `id`.
    spec fn save_available(id: u64) -> bool;

    /// Returns the persisted projection for `id`, or `None` if the id was
    /// never projected (the caller starts from the default).
    fn read(&self, id: u64) -> (r: Result<Option<Self::ReadModel>, FrameworkError>)
        requires
            self.inv(),
        ensures
            match r {
                Ok(m) => m == self.model_at(id),
                Err(e) => (e == FrameworkError::DatabaseError
                    || e == FrameworkError::SerializationError) && !Self::read_available(id),
            },
    ;

    /// Persists the updated projection for `id`.  On error nothing is
    /// persisted.
    fn save(&mut self, id: u64, read_model: &Self::ReadModel) -> (r: Result<(), FrameworkError>)
        requires
            old(self).inv(),
        ensures
            final(self).inv(),
            match r {
                Ok(()) => {
                    &&& final(self).model_at(id) == Some(*read_model)
                    &&& forall|other: u64|
                        other != id ==> #[trigger] final(self).model_at(other) == old(
                            self,
                        ).model_at(other)
                },
                Err(e) => {
                    &&& *final(self) == *old(self)
                    &&& (e == FrameworkError::DatabaseError
                        || e == FrameworkError::SerializationError)
                    &&& !Self::save_available(id)
                },
            },
    ;
}

/// What updating one store with a batch of events does: loads the
/// projection for `id` (default if absent), folds in the consumed events
/// in production order, and stores the result, if every fold succeeded.
pub open spec fn store_after_update<S: ReadModelStore>(store: S, id: u64, events: Seq<
    <S::ReadModel as ReadModel>::Event,
>) -> Result<S::ReadModel, FrameworkError> {
    let base = match store.model_at(id) {
        Some(m) => m,
        None => <S::ReadModel as ReadModel>::initial_spec(),
    };
    project(base, consumed_events::<S::ReadModel>(events))
}

/// Routes one batch of events to one read-model store: loads the
/// projection for `id` (default if absent), folds every consumed event
/// into it in production order, and saves the updated projection.
///
/// On success the store holds exactly the folded projection.  On any
/// error the store is untouched: either the error is the first one the
/// projection's folds surface, or it is a storage failure.
#[verifier::loop_isolation(false)]
pub fn update_read_model<S: ReadModelStore>(
    store: &mut S,
    id: u64,
    events: &Vec<<S::ReadModel as ReadModel>::Event>,
) -> (r: Result<(), FrameworkError>)
    requires
        old(store).inv(),
    ensures
        final(store).inv(),
        match r {
            Ok(()) => {
                &&& (store_after_update(*old(store), id, events@) matches Ok(m)
                    && final(store).model_at(id) == Some(m))
                &&& forall|other: u64|
                    other != id ==> #[trigger] final(store).model_at(other) == old(store).model_at(
                        other,
                    )
            },
            Err(e) => {
                &&& *final(store) == *old(store)
                &&& (store_after_update(*old(store), id, events@) == Err::<
                    S::ReadModel,
                    FrameworkError,
                >(e) || ((e == FrameworkError::DatabaseError
                    || e == FrameworkError::SerializationError) && (!S::read_available(id)
                    || !S::save_available(id))))
            },
        },
{
    broadcast use vstd::seq_lib::group_filter_ensures;

    let mut model: S::ReadModel = match store.read(id) {
        Ok(Some(m)) => m,
        Ok(None) => <S::ReadModel as ReadModel>::initial(),
        Err(e) => {
            return Err(e);
        },
    };
    let ghost base = model;
    let n = events.len();
    let mut j: usize = 0;
    while j < n
        invariant
            j <= n,
            project(base, consumed_events::<S::ReadModel>(events@.take(j as int))) == Ok::<
                S::ReadModel,
                FrameworkError,
            >(model),
        decreases n - j,
    {
        let ghost before = consumed_events::<S::ReadModel>(events@.take(j as int));
        proof {
            reveal(Seq::filter);
            assert(events@.take(j + 1).drop_last() =~= events@.take(j as int));
            assert(events@.take(j + 1).last() == events@[j as int]);
        }
        let event = &events[j];
        if <S::ReadModel as ReadModel>::consumes(event.type_id()) {
            proof {
                assert(consumed_events::<S::ReadModel>(events@.take(j + 1)) == before.push(
                    events@[j as int],
                ));
                lemma_project_push(base, before, events@[j as int]);
            }
            match model.apply_event(event) {
                Ok(()) => {},
                Err(e) => {
                    proof {
                        assert(project(base, consumed_events::<S::ReadModel>(events@.take(j + 1)))
                            == Err::<S::ReadModel, FrameworkError>(e));
                        lemma_consumed_events_append::<S::ReadModel>(
                            events@.take(j + 1),
                            events@.skip(j + 1),
                        );
                        lemma_project_append(
                            base,
                            consumed_events::<S::ReadModel>(events@.take(j + 1)),
                            consumed_events::<S::ReadModel>(events@.skip(j + 1)),
                        );
                        assert(events@.take(j + 1) + events@.skip(j + 1) =~= events@);
                    }
                    return Err(e);
                },
            }
        } else {
            proof {
                assert(consumed_events::<S::ReadModel>(events@.take(j + 1)) == before);
            }
        }
        j += 1;
    }
    proof {
        assert(events@.take(n as int) =~= events@);
    }
    match store.save(id, &model) {
        Ok(()) => Ok(()),
        Err(e) => Err(e),
    }
}

/// The one history that a sequence of event batches forms, in the order
/// the batches were produced.
pub open spec fn concat_batches<E>(batches: Seq<Seq<E>>) -> Seq<E>
    decreases batches.len(),
{
    if batches.len() == 0 {
        Seq::<E>::empty()
    } else {
        batches[0] + concat_batches(batches.skip(1))
    }
}

/// The projection reached by routing one batch after another, each fold
/// restricted to the consumed events of its batch.
pub open spec fn project_batches<M: ReadModel>(m: M, batches: Seq<Seq<M::Event>>) -> Result<
    M,
    FrameworkError,
>
    decreases batches.len(),
{
    if batches.len() == 0 {
        Ok(m)
    } else {
        match project(m, consumed_events::<M>(batches[0])) {
            Ok(mid) => project_batches(mid, batches.skip(1)),
            Err(e) => Err(e),
        }
    }
}

/// Projection completeness over a whole run: after any number of
/// commands, a projection updated batch by batch holds exactly the fold
/// of every consumed event of the full concatenated history, in
/// production order.
pub proof fn lemma_projection_completeness_batches<M: ReadModel>(
    m: M,
    batches: Seq<Seq<M::Event>>,
)
    ensures
        project(m, consumed_events::<M>(concat_batches(batches))) == project_batches(m, batches),
    decreases batches.len(),
{
    reveal(Seq::filter);
    if batches.len() == 0 {
        assert(consumed_events::<M>(concat_batches(batches)) == Seq::<M::Event>::empty());
    } else {
        lemma_projection_completeness(m, batches[0], concat_batches(batches.skip(1)));
        match project(m, consumed_events::<M>(batches[0])) {
            Ok(mid) => {
                lemma_projection_completeness_batches(mid, batches.skip(1));
            },
            Err(_) => {},
        }
    }
}

/// A projection whose folds never fail projects any history.
pub proof fn lemma_project_total<M: ReadModel>(m: M, events: Seq<M::Event>)
    requires
        forall|x: M, e: M::Event| #[trigger] x.apply_spec(e) is Ok,
    ensures
        project(m, events) is Ok,
    decreases events.len(),
{
    if events.len() > 0 {
        lemma_project_total(m.apply_spec(events[0])->Ok_0, events.skip(1));
    }
}

/// The statically-declared set of read-model stores wired into a
/// framework.  The composing application assembles the set once, at
/// wiring time, and implements this trait for it; `update_ok` and
/// `update_err` are the composite's own statement of what routing a batch
/// of events to every member store does, relating the composite's state
/// before and after.
pub trait ReadModelStores<E: Event>: Sized {
    /// The composite's well-formedness condition.
    spec fn inv(self) -> bool;

    /// What a successful routing of `events` for `id` guarantees of the
    /// composite's state afterwards.
    spec fn update_ok(pre: Self, post: Self, id: u64, events: Seq<E>) -> bool;

    /// What a failed routing guarantees: which error surfaces and what
    /// state the members are left in.
    spec fn update_err(pre: Self, post: Self, id: u64, events: Seq<E>, e: FrameworkError) -> bool;

    /// Routes `events`, in production order, to every member store whose
    /// read model consumes at least one of their type tags.
    fn update_read_model(&mut self, id: u64, events: &Vec<E>) -> (r: Result<(), FrameworkError>)
        requires
            old(self).inv(),
        ensures
            final(self).inv(),
            match r {
                Ok(()) => Self::update_ok(*old(self), *final(self), id, events@),
                Err(e) => Self::update_err(*old(self), *final(self), id, events@, e),
            },
    ;
}

/// A composite of read-model stores that can surrender a member of type
/// `S`.  One implementation per registered store type; a query resolves
/// its store through this trait, and a store type for which the composite
/// answers `None` was never registered.
pub trait HasStore<S: ReadModelStore>: Sized {
    /// The composite's well-formedness condition.
    spec fn find_inv(self) -> bool;

    /// The registered store of type `S`, if one was wired in.
    spec fn store_spec(self) -> Option<S>;

    /// Resolves the registered store of type `S`.
    fn find(&self) -> (r: Option<&S>)
        requires
            self.find_inv(),
        ensures
            match r {
                Some(store) => self.store_spec() == Some(*store) && store.inv(),
                None => self.store_spec() is None,
            },
    ;
}

/// An empty composite: no read-model store is registered.
pub struct NoStores;

impl<E: Event> ReadModelStores<E> for NoStores {
    open spec fn inv(self) -> bool {
        true
    }

    open spec fn update_ok(pre: Self, post: Self, id: u64, events: Seq<E>) -> bool {
        post == pre
    }

    open spec fn update_err(
        pre: Self,
        post: Self,
        id: u64,
        events: Seq<E>,
        e: FrameworkError,
    ) -> bool {
        false
    }

    fn update_read_model(&mut self, id: u64, events: &Vec<E>) -> (r: Result<(), FrameworkError>) {
        Ok(())
    }
}

impl<S: ReadModelStore> HasStore<S> for NoStores {
    open spec fn find_inv(self) -> bool {
        true
    }

    open spec fn store_spec(self) -> Option<S> {
        None
    }

    fn find(&self) -> (r: Option<&S>) {
        None
    }
}

/// A projection store held in memory as an append-only journal of
/// `(id, projection)` entries; the last entry for an id is its current
/// projection.  The reference implementation of [`ReadModelStore`]; every
/// operation succeeds.
pub struct MemoryReadModelStore<M: ReadModel> {
    entries: Vec<(u64, M)>,
}

impl<M: ReadModel> MemoryReadModelStore<M> {
    /// An empty projection store.
    pub fn new() -> (r: Self)
        ensures
            r.inv(),
            forall|id: u64| #[trigger] r.model_at(id) is None,
    {
        let r = MemoryReadModelStore { entries: Vec::new() };
        proof {
            assert forall|id: u64| #[trigger] r.model_at(id) is None by {
                lemma_journal_lookup_missing(r.entries@, id);
            }
        }
        r
    }
}

impl<M: ReadModel> ReadModelStore for MemoryReadModelStore<M> {
    type ReadModel = M;

    open spec fn inv(self) -> bool {
        true
    }

    closed spec fn model_at(self, id: u64) -> Option<M> {
        journal_lookup(self.entries@, id)
    }

    open spec fn read_available(id: u64) -> bool {
        true
    }

    open spec fn save_available(id: u64) -> bool {
        true
    }

    #[verifier::loop_isolation(false)]
    fn read(&self, id: u64) -> (r: Result<Option<M>, FrameworkError>) {
        let n = self.entries.len();
        let mut i: usize = n;
        while i > 0
            invariant
                i <= n,
                forall|k: int| i <= k < n ==> (#[trigger] self.entries@[k]).0 != id,
            decreases i,
        {
            i -= 1;
            if self.entries[i].0 == id {
                proof {
                    lemma_journal_lookup_found(self.entries@, id, i as int);
                }
                return Ok(Some(self.entries[i].1.dup()));
            }
        }
        proof {
            lemma_journal_lookup_missing(self.entries@, id);
        }
        Ok(None)
    }

    fn save(&mut self, id: u64, read_model: &M) -> (r: Result<(), FrameworkError>) {
        let ghost old_entries = self.entries@;
        self.entries.push((id, read_model.dup()));
        proof {
            assert(self.entries@.drop_last() =~= old_entries);
        }
        Ok(())
    }
}

} // verus!
