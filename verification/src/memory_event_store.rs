//! A verified in-memory event log.

use vstd::prelude::*;

use crate::error::FrameworkError;
use crate::event::{
    events_after, last_version, lemma_events_after_is_suffix, lemma_wf_log_append,
    lemma_wf_log_last_version, versions_continue, wf_log, Event, EventStore,
};

verus! {

/// The history that an association list holds for `id`: the log of the
/// first entry keyed by `id`, or the empty history.
pub open spec fn assoc_log<E: Event>(entries: Seq<(u64, Vec<E>)>, id: u64) -> Seq<E>
    decreases entries.len(),
{
    if entries.len() == 0 {
        Seq::<E>::empty()
    } else if entries[0].0 == id {
        entries[0].1@
    } else {
        assoc_log(entries.skip(1), id)
    }
}

proof fn lemma_assoc_log_found<E: Event>(entries: Seq<(u64, Vec<E>)>, id: u64, i: int)
    requires
        0 <= i < entries.len(),
        entries[i].0 == id,
        forall|k: int| 0 <= k < i ==> (#[trigger] entries[k]).0 != id,
    ensures
        assoc_log(entries, id) == entries[i].1@,
    decreases i,
{
    if i > 0 {
        lemma_assoc_log_found(entries.skip(1), id, i - 1);
    }
}

proof fn lemma_assoc_log_missing<E: Event>(entries: Seq<(u64, Vec<E>)>, id: u64)
    requires
        forall|k: int| 0 <= k < entries.len() ==> (#[trigger] entries[k]).0 != id,
    ensures
        assoc_log(entries, id) == Seq::<E>::empty(),
    decreases entries.len(),
{
    if entries.len() > 0 {
        lemma_assoc_log_missing(entries.skip(1), id);
    }
}

/// Replacing the entry at `i` with one that carries the same key changes
/// only that key's history, and only if `i` is the key's first entry.
proof fn lemma_assoc_log_update<E: Event>(
    entries: Seq<(u64, Vec<E>)>,
    i: int,
    entry: (u64, Vec<E>),
    q: u64,
)
    requires
        0 <= i < entries.len(),
        entries[i].0 == entry.0,
        forall|k: int| 0 <= k < i ==> (#[trigger] entries[k]).0 != entry.0,
    ensures
        q == entry.0 ==> assoc_log(entries.update(i, entry), q) == entry.1@,
        q != entry.0 ==> assoc_log(entries.update(i, entry), q) == assoc_log(entries, q),
    decreases entries.len(),
{
    let updated = entries.update(i, entry);
    if q == entry.0 {
        lemma_assoc_log_found(updated, q, i);
    } else if entries.len() > 0 {
        if i == 0 {
            assert(updated.skip(1) =~= entries.skip(1));
        } else {
            lemma_assoc_log_update(entries.skip(1), i - 1, entry, q);
            assert(updated.skip(1) =~= entries.skip(1).update(i - 1, entry));
        }
    }
}

/// Appending an entry with a fresh key changes only that key's history.
proof fn lemma_assoc_log_push<E: Event>(entries: Seq<(u64, Vec<E>)>, entry: (u64, Vec<E>), q: u64)
    requires
        forall|k: int| 0 <= k < entries.len() ==> (#[trigger] entries[k]).0 != entry.0,
    ensures
        q == entry.0 ==> assoc_log(entries.push(entry), q) == entry.1@,
        q != entry.0 ==> assoc_log(entries.push(entry), q) == assoc_log(entries, q),
    decreases entries.len(),
{
    if q == entry.0 {
        lemma_assoc_log_found(entries.push(entry), q, entries.len() as int);
    } else if entries.len() == 0 {
        assert(entries.push(entry).skip(1) =~= Seq::<(u64, Vec<E>)>::empty());
        assert(assoc_log(entries.push(entry), q) == assoc_log(
            Seq::<(u64, Vec<E>)>::empty(),
            q,
        ));
        assert(assoc_log(Seq::<(u64, Vec<E>)>::empty(), q) == Seq::<E>::empty());
    } else {
        assert forall|k: int|
            0 <= k < entries.skip(1).len() implies (#[trigger] entries.skip(1)[k]).0
            != entry.0 by {
            assert(entries.skip(1)[k] == entries[k + 1]);
        }
        lemma_assoc_log_push(entries.skip(1), entry, q);
        assert(entries.push(entry).skip(1) =~= entries.skip(1).push(entry));
    }
}

proof fn lemma_assoc_log_wf<E: Event>(entries: Seq<(u64, Vec<E>)>, id: u64)
    requires
        forall|k: int| 0 <= k < entries.len() ==> wf_log((#[trigger] entries[k]).1@),
    ensures
        wf_log(assoc_log(entries, id)),
    decreases entries.len(),
{
    if entries.len() > 0 && entries[0].0 != id {
        lemma_assoc_log_wf(entries.skip(1), id);
    }
}

/// An event log held in memory: one `(aggregate id, history)` entry per
/// aggregate id ever written.  The reference implementation of
/// [`EventStore`]; every operation succeeds.
pub struct MemoryEventStore<E: Event> {
    entries: Vec<(u64, Vec<E>)>,
}

impl<E: Event> MemoryEventStore<E> {
    /// An empty event log.
    pub fn new() -> (r: Self)
        ensures
            r.inv(),
            forall|id: u64| #[trigger] r.log_at(id) == Seq::<E>::empty(),
    {
        let r = MemoryEventStore { entries: Vec::new() };
        proof {
            assert forall|id: u64| #[trigger] r.log_at(id) == Seq::<E>::empty() by {
                lemma_assoc_log_missing(r.entries@, id);
            }
        }
        r
    }

    /// The index of the first entry keyed by `aggregate_id`, if any.
    fn find_entry(&self, aggregate_id: u64) -> (r: Option<usize>)
        ensures
            match r {
                Some(i) => {
                    &&& i < self.entries@.len()
                    &&& self.entries@[i as int].0 == aggregate_id
                    &&& forall|k: int|
                        0 <= k < i ==> (#[trigger] self.entries@[k]).0 != aggregate_id
                    &&& self.log_at(aggregate_id) == self.entries@[i as int].1@
                },
                None => {
                    &&& forall|k: int|
                        0 <= k < self.entries@.len() ==> (#[trigger] self.entries@[k]).0
                            != aggregate_id
                    &&& self.log_at(aggregate_id) == Seq::<E>::empty()
                },
            },
    {
        let n = self.entries.len();
        let mut i: usize = 0;
        while i < n
            invariant
                n == self.entries@.len(),
                i <= n,
                forall|k: int| 0 <= k < i ==> (#[trigger] self.entries@[k]).0 != aggregate_id,
            decreases n - i,
        {
            if self.entries[i].0 == aggregate_id {
                proof {
                    lemma_assoc_log_found(self.entries@, aggregate_id, i as int);
                }
                return Some(i);
            }
            i += 1;
        }
        proof {
            lemma_assoc_log_missing(self.entries@, aggregate_id);
        }
        None
    }
}

impl<E: Event> EventStore<E> for MemoryEventStore<E> {
    closed spec fn inv(self) -> bool {
        forall|k: int| 0 <= k < self.entries@.len() ==> wf_log((#[trigger] self.entries@[k]).1@)
    }

    closed spec fn log_at(self, aggregate_id: u64) -> Seq<E> {
        assoc_log(self.entries@, aggregate_id)
    }

    open spec fn read_available(aggregate_id: u64) -> bool {
        true
    }

    open spec fn save_available(aggregate_id: u64, events: Seq<E>) -> bool {
        true
    }

    proof fn lemma_logs_well_formed(&self, aggregate_id: u64) {
        lemma_assoc_log_wf(self.entries@, aggregate_id);
    }

    fn read(&self, aggregate_id: u64, from_version: u32) -> (r: Result<Vec<E>, FrameworkError>) {
        proof {
            self.lemma_logs_well_formed(aggregate_id);
            lemma_wf_log_last_version(self.log_at(aggregate_id));
            lemma_events_after_is_suffix(self.log_at(aggregate_id), from_version);
        }
        let mut out: Vec<E> = Vec::new();
        match self.find_entry(aggregate_id) {
            None => Ok(out),
            Some(i) => {
                let log = &self.entries[i].1;
                let n = log.len();
                let mut j: usize = if (from_version as usize) < n {
                    from_version as usize
                } else {
                    n
                };
                let ghost start = j as int;
                while j < n
                    invariant
                        n == log@.len(),
                        0 <= start <= j <= n,
                        out@ == log@.subrange(start, j as int),
                    decreases n - j,
                {
                    out.push(log[j].dup());
                    proof {
                        assert(out@ =~= log@.subrange(start, j + 1));
                    }
                    j += 1;
                }
                proof {
                    assert(out@ =~= log@.skip(start));
                    if from_version < log@.len() {
                        assert(out@ == events_after(self.log_at(aggregate_id), from_version));
                    } else {
                        assert(out@ =~= Seq::<E>::empty());
                    }
                }
                Ok(out)
            },
        }
    }

    #[verifier::loop_isolation(false)]
    fn save(&mut self, aggregate_id: u64, events: &Vec<E>) -> (r: Result<(), FrameworkError>) {
        proof {
            old(self).lemma_logs_well_formed(aggregate_id);
            lemma_wf_log_last_version(old(self).log_at(aggregate_id));
        }
        let found = self.find_entry(aggregate_id);
        let base: u32 = match found {
            Some(i) => {
                let log = &self.entries[i].1;
                if log.len() == 0 {
                    0
                } else {
                    log[log.len() - 1].version()
                }
            },
            None => 0,
        };
        // optimistic concurrency: the batch must continue the history
        let mut j: usize = 0;
        let n = events.len();
        let mut prev: u32 = base;
        while j < n
            invariant
                n == events@.len(),
                j <= n,
                prev == base + j,
                forall|k: int|
                    0 <= k < j ==> #[trigger] events@[k].version_spec() == base + 1 + k,
            decreases n - j,
        {
            let v = events[j].version();
            if prev == u32::MAX || v != prev + 1 {
                proof {
                    assert(events@[j as int].version_spec() != base + 1 + j);
                    assert(!versions_continue(events@, base));
                }
                return Err(FrameworkError::ConcurrencyError);
            }
            prev = v;
            j += 1;
        }
        proof {
            assert(versions_continue(events@, base));
        }
        // append copies of the batch
        match found {
            Some(i) => {
                let ghost old_entries = self.entries@;
                let ghost old_log = self.entries@[i as int].1@;
                let mut k: usize = 0;
                while k < n
                    invariant
                        n == events@.len(),
                        k <= n,
                        i < self.entries@.len(),
                        self.entries@.len() == old_entries.len(),
                        forall|q: int|
                            0 <= q < old_entries.len() && q != i ==> #[trigger] self.entries@[q]
                                == old_entries[q],
                        self.entries@[i as int].0 == aggregate_id,
                        self.entries@[i as int].1@ == old_log + events@.take(k as int),
                    decreases n - k,
                {
                    let ghost before = self.entries@[i as int].1@;
                    self.entries[i].1.push(events[k].dup());
                    proof {
                        assert(self.entries@[i as int].1@ == before.push(events@[k as int]));
                        assert((old_log + events@.take(k as int)).push(events@[k as int])
                            =~= old_log + events@.take(k + 1));
                    }
                    k += 1;
                }
                proof {
                    assert(events@.take(n as int) =~= events@);
                    lemma_wf_log_append(old_log, events@);
                    let entry = self.entries@[i as int];
                    assert(self.entries@ =~= old_entries.update(i as int, entry));
                    assert forall|q: u64| true implies #[trigger] self.log_at(q) == if q
                        == aggregate_id {
                        old_log + events@
                    } else {
                        assoc_log(old_entries, q)
                    } by {
                        lemma_assoc_log_update(old_entries, i as int, entry, q);
                    }
                }
                Ok(())
            },
            None => {
                let mut log: Vec<E> = Vec::new();
                let mut k: usize = 0;
                while k < n
                    invariant
                        n == events@.len(),
                        k <= n,
                        log@ == events@.take(k as int),
                    decreases n - k,
                {
                    log.push(events[k].dup());
                    proof {
                        assert(events@.take(k as int).push(events@[k as int]) =~= events@.take(
                            k + 1,
                        ));
                    }
                    k += 1;
                }
                proof {
                    assert(log@ =~= events@);
                    assert(wf_log(log@)) by {
                        lemma_wf_log_append(Seq::<E>::empty(), events@);
                        assert(Seq::<E>::empty() + events@ =~= events@);
                    }
                }
                let ghost old_entries = self.entries@;
                let entry = (aggregate_id, log);
                self.entries.push(entry);
                proof {
                    assert forall|q: u64| true implies #[trigger] self.log_at(q) == if q
                        == aggregate_id {
                        events@
                    } else {
                        assoc_log(old_entries, q)
                    } by {
                        lemma_assoc_log_push(old_entries, (aggregate_id, log), q);
                    }
                }
                Ok(())
            },
        }
    }
}

} // verus!
