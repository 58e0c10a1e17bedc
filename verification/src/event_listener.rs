//! The event listener: projection updates followed by side-effect
//! callbacks.
//!
//! A listener keeps at most one callback per event-type tag; registering a
//! second callback for the same tag overwrites the first.  After the
//! read-model stores are updated, each produced event is dispatched, in
//! production order, to the callback registered for its tag, if any.  A
//! callback failure aborts the remaining dispatch and surfaces the error;
//! it does not undo the already-updated projections.

use core::marker::PhantomData;

use vstd::prelude::*;

use crate::error::FrameworkError;
use crate::event::{Event, EventTypeId};
use crate::journal::{journal_lookup, lemma_journal_lookup_found, lemma_journal_lookup_missing};
use crate::read_model::ReadModelStores;

verus! {

/// The callback admits success on this event: returning `Ok` is among
/// its permitted outcomes for it.
pub open spec fn callback_accepts<E, F: Fn(&E) -> Result<(), FrameworkError>>(
    f: F,
    event: E,
) -> bool {
    exists|out: Result<(), FrameworkError>|
        out is Ok && #[trigger] call_ensures(f, (&event,), out)
}

/// The callback can reject this event with exactly this error.
pub open spec fn callback_rejects<E, F: Fn(&E) -> Result<(), FrameworkError>>(
    f: F,
    event: E,
    e: FrameworkError,
) -> bool {
    call_ensures(f, (&event,), Err(e))
}

/// A registry of side-effect callbacks keyed by event-type tag.
pub struct EventListener<E, F> {
    callbacks: Vec<(EventTypeId, F)>,
    marker: PhantomData<E>,
}

impl<E: Event, F: Fn(&E) -> Result<(), FrameworkError>> EventListener<E, F> {
    /// Every registered callback accepts every event.
    pub closed spec fn inv(self) -> bool {
        forall|i: int, e: &E|
            0 <= i < self.callbacks@.len() ==> #[trigger] call_requires(self.callbacks@[i].1, (e,))
    }

    /// The callback registered for a tag, if any; the last registration
    /// for a tag wins.
    pub closed spec fn callback_for(self, event_type_id: EventTypeId) -> Option<F> {
        journal_lookup(self.callbacks@, event_type_id)
    }

    /// A listener with no callbacks registered.
    pub fn new() -> (r: Self)
        ensures
            r.inv(),
            forall|t: EventTypeId| #[trigger] r.callback_for(t) is None,
    {
        let r = EventListener { callbacks: Vec::new(), marker: PhantomData };
        proof {
            assert forall|t: EventTypeId| #[trigger] r.callback_for(t) is None by {
                lemma_journal_lookup_missing(r.callbacks@, t);
            }
        }
        r
    }

    /// Registers `callback` for events tagged `event_type_id`,
    /// overwriting any callback previously registered for that tag.
    pub fn register_callback(&mut self, event_type_id: EventTypeId, callback: F)
        requires
            old(self).inv(),
            forall|e: &E| call_requires(callback, (e,)),
        ensures
            final(self).inv(),
            final(self).callback_for(event_type_id) == Some(callback),
            forall|t: EventTypeId|
                t != event_type_id ==> #[trigger] final(self).callback_for(t) == old(
                    self,
                ).callback_for(t),
    {
        let ghost old_callbacks = self.callbacks@;
        self.callbacks.push((event_type_id, callback));
        proof {
            assert(self.callbacks@.drop_last() =~= old_callbacks);
        }
    }

    /// The callback registered for `event_type_id`, if any.
    #[verifier::loop_isolation(false)]
    fn get_callback(&self, event_type_id: EventTypeId) -> (r: Option<&F>)
        requires
            self.inv(),
        ensures
            match r {
                Some(f) => self.callback_for(event_type_id) == Some(*f) && forall|e: &E|
                    call_requires(*f, (e,)),
                None => self.callback_for(event_type_id) is None,
            },
    {
        let n = self.callbacks.len();
        let mut i: usize = n;
        while i > 0
            invariant
                i <= n,
                forall|k: int| i <= k < n ==> (#[trigger] self.callbacks@[k]).0 != event_type_id,
            decreases i,
        {
            i -= 1;
            if self.callbacks[i].0 == event_type_id {
                proof {
                    lemma_journal_lookup_found(self.callbacks@, event_type_id, i as int);
                }
                return Some(&self.callbacks[i].1);
            }
        }
        proof {
            lemma_journal_lookup_missing(self.callbacks@, event_type_id);
        }
        None
    }

    /// Updates every wired read-model store with `events`, then
    /// dispatches each event, in production order, to the callback
    /// registered for its tag.  A projection error aborts before any
    /// callback runs; a callback error aborts the remaining dispatch.
    /// Either way the projections already updated stay updated.
    #[verifier::loop_isolation(false)]
    pub fn handle_events<R: ReadModelStores<E>>(
        &self,
        read_model_stores: &mut R,
        aggregate_id: u64,
        events: Vec<E>,
    ) -> (r: Result<(), FrameworkError>)
        requires
            self.inv(),
            old(read_model_stores).inv(),
        ensures
            final(read_model_stores).inv(),
            match r {
                Ok(()) => {
                    &&& R::update_ok(
                        *old(read_model_stores),
                        *final(read_model_stores),
                        aggregate_id,
                        events@,
                    )
                    &&& forall|k: int|
                        0 <= k < events@.len() && (#[trigger] self.callback_for(
                            events@[k].type_id_spec(),
                        )) is Some ==> callback_accepts(
                            self.callback_for(events@[k].type_id_spec())->Some_0,
                            events@[k],
                        )
                },
                Err(e) => R::update_err(
                    *old(read_model_stores),
                    *final(read_model_stores),
                    aggregate_id,
                    events@,
                    e,
                ) || (R::update_ok(
                    *old(read_model_stores),
                    *final(read_model_stores),
                    aggregate_id,
                    events@,
                ) && exists|k: int|
                    0 <= k < events@.len() && ((#[trigger] self.callback_for(
                        events@[k].type_id_spec(),
                    )) matches Some(f) && callback_rejects(f, events@[k], e))),
            },
    {
        match read_model_stores.update_read_model(aggregate_id, &events) {
            Ok(()) => {},
            Err(e) => {
                return Err(e);
            },
        }
        let n = events.len();
        let mut i: usize = 0;
        while i < n
            invariant
                i <= n,
                n == events@.len(),
                forall|k: int|
                    0 <= k < i && (#[trigger] self.callback_for(
                        events@[k].type_id_spec(),
                    )) is Some ==> callback_accepts(
                        self.callback_for(events@[k].type_id_spec())->Some_0,
                        events@[k],
                    ),
            decreases n - i,
        {
            let event = &events[i];
            match self.get_callback(event.type_id()) {
                Some(callback) => {
                    let res = callback(event);
                    match res {
                        Ok(()) => {
                            proof {
                                assert(call_ensures(*callback, (&events@[i as int],), res));
                                assert(callback_accepts(*callback, events@[i as int]));
                            }
                        },
                        Err(e) => {
                            proof {
                                assert(call_ensures(
                                    *callback,
                                    (&events@[i as int],),
                                    Err::<(), FrameworkError>(e),
                                ));
                                assert(callback_rejects(*callback, events@[i as int], e));
                            }
                            return Err(e);
                        },
                    }
                },
                None => {},
            }
            i += 1;
        }
        Ok(())
    }
}

} // verus!
