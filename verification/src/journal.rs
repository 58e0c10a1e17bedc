//! The model of an append-only journal of keyed entries.
//!
//! The in-memory stores keep `(id, value)` pairs in insertion order and
//! never remove one; the current value for an id is its last entry.

use vstd::prelude::*;

verus! {

/// The value that an append-only journal holds for `id`: the last entry
/// keyed by `id` wins.
pub open spec fn journal_lookup<K, T>(entries: Seq<(K, T)>, id: K) -> Option<T>
    decreases entries.len(),
{
    if entries.len() == 0 {
        None
    } else if entries.last().0 == id {
        Some(entries.last().1)
    } else {
        journal_lookup(entries.drop_last(), id)
    }
}

/// If `i` is the last entry keyed by `id`, the journal holds its value.
pub proof fn lemma_journal_lookup_found<K, T>(entries: Seq<(K, T)>, id: K, i: int)
    requires
        0 <= i < entries.len(),
        entries[i].0 == id,
        forall|k: int| i < k < entries.len() ==> (#[trigger] entries[k]).0 != id,
    ensures
        journal_lookup(entries, id) == Some(entries[i].1),
    decreases entries.len(),
{
    if i < entries.len() - 1 {
        lemma_journal_lookup_found(entries.drop_last(), id, i);
    }
}

/// A journal with no entry keyed by `id` holds nothing for it.
pub proof fn lemma_journal_lookup_missing<K, T>(entries: Seq<(K, T)>, id: K)
    requires
        forall|k: int| 0 <= k < entries.len() ==> (#[trigger] entries[k]).0 != id,
    ensures
        journal_lookup(entries, id) is None,
    decreases entries.len(),
{
    if entries.len() > 0 {
        lemma_journal_lookup_missing(entries.drop_last(), id);
    }
}

} // verus!
