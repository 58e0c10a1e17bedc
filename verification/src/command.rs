//! Commands: intents targeted at one aggregate.

use vstd::prelude::*;

verus! {

/// An intent carrying the id of the aggregate it targets.  Commands are
/// not persisted; handling one produces the events that are.
pub trait Command: Sized {
    /// The id of the aggregate this command targets.
    spec fn aggregate_id_spec(self) -> u64;

    /// The id of the aggregate this command targets.
    fn aggregate_id(&self) -> (r: u64)
        ensures
            r == self.aggregate_id_spec(),
    ;
}

} // verus!
