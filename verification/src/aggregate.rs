//! Aggregates: state machines reconstructed by replaying their events.
//!
//! An aggregate carries a monotonically increasing `version`.  The version
//! starts at `0`; the first applied event sets it to `1`, and every event
//! sets it to the event's own stated version.  Handling a command is a
//! pure function of the current state; it produces events whose versions
//! continue the aggregate's history.

use vstd::prelude::*;

use crate::command::Command;
use crate::error::FrameworkError;
use crate::event::{versions_continue, Event};

verus! {

/// The integer tag identifying an aggregate type.
pub type AggregateTypeId = u32;

/// A state machine whose state is a fold of its event history.
///
/// The spec functions are the aggregate's mathematical model: what the
/// default state is, how one event folds into the state, and what events
/// a command produces.  The exec methods must agree with that model, and
/// the three lemmas oblige every implementation to keep versions coherent:
/// the initial state is at version `0`, applying an event moves the state
/// to the event's version, and handling a command yields events versioned
/// `version + 1, version + 2, ...`.
pub trait Aggregate: Sized {
    /// The commands this aggregate handles.
    type Command: Command;

    /// The events this aggregate emits and applies.
    type Event: Event;

    /// The tag identifying this aggregate type.
    spec fn type_id_spec() -> AggregateTypeId;

    /// The default state an aggregate is rebuilt from.
    spec fn initial_spec() -> Self;

    /// The version of the last event folded into this state; `0` for the
    /// initial state.
    spec fn version_spec(self) -> u32;

    /// How one event folds into the state.
    spec fn apply_spec(self, event: Self::Event) -> Self;

    /// What handling a command produces: the events to persist, or the
    /// domain error that rejects the command.
    spec fn handle_spec(self, command: Self::Command) -> Result<Seq<Self::Event>, FrameworkError>;

    /// The initial state is at version `0`.
    proof fn lemma_initial_version()
        ensures
            Self::initial_spec().version_spec() == 0,
    ;

    /// Applying an event moves the state to the event's version.
    proof fn lemma_apply_version(s: Self, event: Self::Event)
        ensures
            s.apply_spec(event).version_spec() == event.version_spec(),
    ;

    /// The events a command produces continue the aggregate's history.
    proof fn lemma_handle_versions(s: Self, command: Self::Command)
        ensures
            s.handle_spec(command) matches Ok(events) ==> versions_continue(
                events,
                s.version_spec(),
            ),
    ;

    /// The tag identifying this aggregate type.
    fn type_id() -> (r: AggregateTypeId)
        ensures
            r == Self::type_id_spec(),
    ;

    /// The default state an aggregate is rebuilt from.
    fn initial() -> (a: Self)
        ensures
            a == Self::initial_spec(),
    ;

    /// The version of the last event folded into this state.
    fn version(&self) -> (v: u32)
        ensures
            v == self.version_spec(),
    ;

    /// Handles a command against the current state.  Pure: must not
    /// mutate the state and must not assume the events get persisted.
    fn handle(&self, command: Self::Command) -> (r: Result<Vec<Self::Event>, FrameworkError>)
        ensures
            match r {
                Ok(events) => self.handle_spec(command) == Ok::<
                    Seq<Self::Event>,
                    FrameworkError,
                >(events@),
                Err(e) => self.handle_spec(command) == Err::<Seq<Self::Event>, FrameworkError>(e),
            },
    ;

    /// Folds one event into the state.
    fn apply_one(&mut self, event: &Self::Event)
        ensures
            *final(self) == old(self).apply_spec(*event),
    ;

    /// An exact copy of the state.  Aggregates are plain data; stores keep
    /// copies of what they persist and hand copies back.
    fn dup(&self) -> (r: Self)
        ensures
            r == *self,
    ;
}

/// The state reached by folding `events`, in order, into `a`.
pub open spec fn replay<A: Aggregate>(a: A, events: Seq<A::Event>) -> A
    decreases events.len(),
{
    if events.len() == 0 {
        a
    } else {
        replay(a.apply_spec(events[0]), events.skip(1))
    }
}

/// Replay distributes over concatenation: folding `e1 + e2` is folding
/// `e1`, then folding `e2` from the intermediate state.
pub proof fn lemma_replay_append<A: Aggregate>(a: A, e1: Seq<A::Event>, e2: Seq<A::Event>)
    ensures
        replay(a, e1 + e2) == replay(replay(a, e1), e2),
    decreases e1.len(),
{
    if e1.len() == 0 {
        assert(e1 + e2 =~= e2);
    } else {
        assert((e1 + e2)[0] == e1[0]);
        assert((e1 + e2).skip(1) =~= e1.skip(1) + e2);
        lemma_replay_append(a.apply_spec(e1[0]), e1.skip(1), e2);
    }
}

/// Folding one more event is applying it to the folded state.
pub proof fn lemma_replay_push<A: Aggregate>(a: A, events: Seq<A::Event>, event: A::Event)
    ensures
        replay(a, events.push(event)) == replay(a, events).apply_spec(event),
{
    let s = seq![event];
    lemma_replay_append(a, events, s);
    assert(events + s =~= events.push(event));
    assert(s.skip(1) =~= Seq::<A::Event>::empty());
    assert(replay(replay(a, events), s) == replay(replay(a, events).apply_spec(event), s.skip(1)));
    assert(replay(replay(a, events).apply_spec(event), s.skip(1)) == replay(a, events).apply_spec(
        event,
    ));
}

/// The version of a replayed state is the version of the last event
/// folded in (or the starting version if no event was).
pub proof fn lemma_replay_version<A: Aggregate>(a: A, events: Seq<A::Event>)
    ensures
        events.len() == 0 ==> replay(a, events).version_spec() == a.version_spec(),
        events.len() > 0 ==> replay(a, events).version_spec() == events.last().version_spec(),
    decreases events.len(),
{
    if events.len() > 0 {
        A::lemma_apply_version(a, events[0]);
        lemma_replay_version(a.apply_spec(events[0]), events.skip(1));
        if events.len() > 1 {
            assert(events.skip(1).last() == events.last());
        }
    }
}

/// Replay determinism: replaying the full ordered history from the
/// default state yields the same state whether replay starts from
/// scratch or resumes from a snapshot taken at any intermediate point.
pub proof fn lemma_replay_determinism<A: Aggregate>(history: Seq<A::Event>, snapshot_at: int)
    requires
        0 <= snapshot_at <= history.len(),
    ensures
        replay(replay(A::initial_spec(), history.take(snapshot_at)), history.skip(snapshot_at))
            == replay(A::initial_spec(), history),
{
    lemma_replay_append(A::initial_spec(), history.take(snapshot_at), history.skip(snapshot_at));
    assert(history.take(snapshot_at) + history.skip(snapshot_at) =~= history);
}

/// Folds `events` into `aggregate`, in order, after checking that every
/// event's version is exactly one greater than its predecessor's.
///
/// Version monotonicity: a batch in which some event's version is not
/// exactly one greater than the version before it is rejected with
/// `InvalidEventVersion` and the aggregate is left untouched — an event
/// is never double-applied.
#[verifier::loop_isolation(false)]
pub fn apply_events<A: Aggregate>(aggregate: &mut A, events: &Vec<A::Event>) -> (r: Result<
    (),
    FrameworkError,
>)
    ensures
        match r {
            Ok(()) => {
                &&& versions_continue(events@, old(aggregate).version_spec())
                &&& *final(aggregate) == replay(*old(aggregate), events@)
            },
            Err(e) => {
                &&& *final(aggregate) == *old(aggregate)
                &&& !versions_continue(events@, old(aggregate).version_spec())
                &&& exists|i: int|
                    {
                        &&& 0 <= i < events@.len()
                        &&& (forall|k: int|
                            0 <= k < i ==> (#[trigger] events@[k]).version_spec() == old(
                                aggregate,
                            ).version_spec() + 1 + k)
                        &&& events@[i].version_spec() != old(aggregate).version_spec() + 1 + i
                        &&& e == FrameworkError::InvalidEventVersion(
                            if old(aggregate).version_spec() + 1 + i <= u32::MAX {
                                (old(aggregate).version_spec() + 1 + i) as u32
                            } else {
                                u32::MAX
                            },
                            events@[i].version_spec(),
                        )
                    }
            },
        },
{
    let ghost base = aggregate.version_spec();
    let n = events.len();
    let mut prev: u32 = aggregate.version();
    let mut j: usize = 0;
    while j < n
        invariant
            j <= n,
            prev == base + j,
            forall|k: int| 0 <= k < j ==> (#[trigger] events@[k]).version_spec() == base + 1 + k,
        decreases n - j,
    {
        let v = events[j].version();
        if prev == u32::MAX || v != prev + 1 {
            let expected = if prev == u32::MAX {
                u32::MAX
            } else {
                prev + 1
            };
            proof {
                assert(events@[j as int].version_spec() != base + 1 + j);
                assert(!versions_continue(events@, base));
            }
            return Err(FrameworkError::InvalidEventVersion(expected, v));
        }
        prev = v;
        j += 1;
    }
    let mut k: usize = 0;
    while k < n
        invariant
            k <= n,
            *aggregate == replay(*old(aggregate), events@.take(k as int)),
        decreases n - k,
    {
        aggregate.apply_one(&events[k]);
        proof {
            lemma_replay_push(*old(aggregate), events@.take(k as int), events@[k as int]);
            assert(events@.take(k as int).push(events@[k as int]) =~= events@.take(k + 1));
        }
        k += 1;
    }
    proof {
        assert(events@.take(n as int) =~= events@);
    }
    Ok(())
}

} // verus!
