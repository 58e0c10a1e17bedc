//! Events and the event log.
//!
//! An event is an immutable fact, tagged with an [`EventTypeId`] identifying
//! its payload shape and a `version` specifying where it falls in its
//! aggregate's ordered history.  Events for one aggregate are read and
//! applied in strictly increasing version order.

use vstd::prelude::*;

use crate::error::FrameworkError;

verus! {

/// The integer tag identifying an event's payload shape.
pub type EventTypeId = u32;

/// An immutable fact in an aggregate's history.
pub trait Event: Sized {
    /// The tag identifying this event's payload shape.
    spec fn type_id_spec(self) -> EventTypeId;

    /// Where this event falls in its aggregate's ordered history.
    spec fn version_spec(self) -> u32;

    /// The tag identifying this event's payload shape.
    fn type_id(&self) -> (r: EventTypeId)
        ensures
            r == self.type_id_spec(),
    ;

    /// Where this event falls in its aggregate's ordered history.
    fn version(&self) -> (r: u32)
        ensures
            r == self.version_spec(),
    ;

    /// An exact copy of the event.  Events are plain data; stores keep
    /// copies of what they persist and hand copies back.
    fn dup(&self) -> (r: Self)
        ensures
            r == *self,
    ;
}

/// Holds when `events` carries versions `base + 1, base + 2, ...`: the
/// sequence is a valid continuation of a history whose last version is
/// `base`.
pub open spec fn versions_continue<E: Event>(events: Seq<E>, base: u32) -> bool {
    forall|i: int| 0 <= i < events.len() ==> #[trigger] events[i].version_spec() == base + 1 + i
}

/// The version of the last event of `log`, or `0` for an empty history.
pub open spec fn last_version<E: Event>(log: Seq<E>) -> u32 {
    if log.len() == 0 {
        0u32
    } else {
        log.last().version_spec()
    }
}

/// Holds when `log` is a well-formed history: its events carry versions
/// `1, 2, ...` in order.
pub open spec fn wf_log<E: Event>(log: Seq<E>) -> bool {
    versions_continue(log, 0u32)
}

/// In a well-formed history the last version equals the length.
pub proof fn lemma_wf_log_last_version<E: Event>(log: Seq<E>)
    requires
        wf_log(log),
    ensures
        last_version(log) == log.len(),
        log.len() <= u32::MAX,
{
    if log.len() > 0 {
        assert(log.last().version_spec() == 0 + 1 + (log.len() - 1));
    }
}

/// Appending a valid continuation keeps a history well formed.
pub proof fn lemma_wf_log_append<E: Event>(log: Seq<E>, events: Seq<E>)
    requires
        wf_log(log),
        versions_continue(events, last_version(log)),
    ensures
        wf_log(log + events),
{
    lemma_wf_log_last_version(log);
    assert forall|i: int| 0 <= i < (log + events).len() implies #[trigger] (log
        + events)[i].version_spec() == 0 + 1 + i by {
        if i < log.len() {
            assert(log[i].version_spec() == 0 + 1 + i);
        } else {
            assert(events[i - log.len()].version_spec() == last_version(log) + 1 + (i - log.len()));
        }
    }
}

/// Optimistic concurrency: two non-empty batches computed against the
/// same base history collide.  Once either batch is appended, the other
/// no longer continues the log, so a conforming event store must reject
/// it with `ConcurrencyError` rather than append it — two such writers
/// can never both succeed.
pub proof fn lemma_optimistic_concurrency<E: Event>(log: Seq<E>, first: Seq<E>, second: Seq<E>)
    requires
        wf_log(log),
        versions_continue(first, last_version(log)),
        versions_continue(second, last_version(log)),
        first.len() > 0,
        second.len() > 0,
    ensures
        !versions_continue(second, last_version(log + first)),
{
    lemma_wf_log_last_version(log);
    lemma_wf_log_append(log, first);
    lemma_wf_log_last_version(log + first);
    assert(second[0].version_spec() == last_version(log) + 1);
    assert(last_version(log + first) == log.len() + first.len());
}

/// The events of `log` whose version is strictly above `from`.
pub open spec fn events_after<E: Event>(log: Seq<E>, from: u32) -> Seq<E> {
    log.filter(|e: E| e.version_spec() > from)
}

/// In a well-formed history, the events above version `from` are exactly
/// the suffix starting at index `from` (empty when `from` is at or past
/// the end).
pub proof fn lemma_events_after_is_suffix<E: Event>(log: Seq<E>, from: u32)
    requires
        wf_log(log),
    ensures
        from <= log.len() ==> events_after(log, from) =~= log.skip(from as int),
        from >= log.len() ==> events_after(log, from) =~= Seq::<E>::empty(),
    decreases log.len(),
{
    reveal(Seq::filter);
    if log.len() > 0 {
        let prefix = log.drop_last();
        assert(wf_log(prefix)) by {
            assert forall|i: int| 0 <= i < prefix.len() implies #[trigger] prefix[i].version_spec()
                == 0 + 1 + i by {
                assert(log[i].version_spec() == 0 + 1 + i);
            }
        }
        lemma_events_after_is_suffix(prefix, from);
        assert(log.last().version_spec() == 0 + 1 + (log.len() - 1));
        if from < log.len() {
            assert(log.last().version_spec() > from);
            assert(events_after(log, from) == events_after(prefix, from).push(log.last()));
            assert(prefix.skip(from as int).push(log.last()) =~= log.skip(from as int));
        } else {
            assert(!(log.last().version_spec() > from));
            assert(events_after(log, from) == events_after(prefix, from));
        }
    }
}

/// The ordered, append-only log of every event ever persisted, keyed by
/// aggregate id.
///
/// The log is the source of truth for aggregate state.  `save` must reject
/// out-of-sequence versions: this is the optimistic-concurrency guarantee
/// that protects the history of one aggregate id against a writer that
/// read a stale version.
pub trait EventStore<E: Event>: Sized {
    /// The store's internal well-formedness condition.
    spec fn inv(self) -> bool;

    /// The persisted history of one aggregate id, in version order;
    /// empty if the id was never written.
    spec fn log_at(self, aggregate_id: u64) -> Seq<E>;

    /// Whether this store class answers every read of `aggregate_id`.
    /// An in-memory store does; a fallible backend does not promise to.
    spec fn read_available(aggregate_id: u64) -> bool;

    /// Whether this store class accepts every save of `events` for
    /// `aggregate_id` whose versions continue the persisted history.
    spec fn save_available(aggregate_id: u64, events: Seq<E>) -> bool;

    /// Every persisted history carries versions `1, 2, ...` in order.
    proof fn lemma_logs_well_formed(&self, aggregate_id: u64)
        requires
            self.inv(),
        ensures
            wf_log(self.log_at(aggregate_id)),
    ;

    /// Returns every event of `aggregate_id` with version strictly above
    /// `from_version`, in ascending version order.
    fn read(&self, aggregate_id: u64, from_version: u32) -> (r: Result<Vec<E>, FrameworkError>)
        requires
            self.inv(),
        ensures
            match r {
                Ok(events) => events@ == events_after(self.log_at(aggregate_id), from_version),
                Err(e) => (e == FrameworkError::DatabaseError
                    || e == FrameworkError::SerializationError) && !Self::read_available(
                    aggregate_id,
                ),
            },
    ;

    /// Appends `events` to the history of `aggregate_id`.  The append is
    /// all-or-nothing: on any error nothing is persisted.  A batch whose
    /// versions do not immediately continue the persisted history is
    /// rejected with `ConcurrencyError`.
    fn save(&mut self, aggregate_id: u64, events: &Vec<E>) -> (r: Result<(), FrameworkError>)
        requires
            old(self).inv(),
        ensures
            final(self).inv(),
            match r {
                Ok(()) => {
                    &&& versions_continue(events@, last_version(old(self).log_at(aggregate_id)))
                    &&& final(self).log_at(aggregate_id) == old(self).log_at(aggregate_id)
                        + events@
                    &&& forall|id: u64|
                        id != aggregate_id ==> #[trigger] final(self).log_at(id) == old(
                            self,
                        ).log_at(id)
                },
                Err(e) => {
                    &&& *final(self) == *old(self)
                    &&& if e == FrameworkError::ConcurrencyError {
                        !versions_continue(events@, last_version(old(self).log_at(aggregate_id)))
                    } else {
                        (e == FrameworkError::DatabaseError
                            || e == FrameworkError::SerializationError) && !Self::save_available(
                            aggregate_id,
                            events@,
                        )
                    }
                },
            },
    ;
}

} // verus!
