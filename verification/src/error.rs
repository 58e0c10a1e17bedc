//! The failure taxonomy shared by every component of the runtime core.

use vstd::prelude::*;

verus! {

/// Every failure a command or query can surface to its caller.
///
/// - `DatabaseError`: an I/O failure reported by a collaborator store.
/// - `SerializationError`: a payload could not be encoded or decoded.
/// - `InvalidEventVersion(expected, got)`: an event was applied out of
///   order during replay.
/// - `ConcurrencyError`: an optimistic-concurrency violation on save; the
///   events being appended do not immediately follow the last persisted
///   version of the aggregate.
/// - `DomainRuleViolation`: the aggregate rejected the command as invalid
///   for its current state.
/// - `NoSuchReadModelStore`: a query named a read-model store that was
///   never registered.
#[derive(Debug, PartialEq, Eq, Structural)]
pub enum FrameworkError {
    DatabaseError,
    SerializationError,
    InvalidEventVersion(u32, u32),
    ConcurrencyError,
    DomainRuleViolation,
    NoSuchReadModelStore,
}

impl FrameworkError {
    /// A short human-readable description of the failure.
    pub fn describe(&self) -> (r: &'static str)
        ensures
            r@ == self.describe_spec(),
    {
        proof {
            reveal_strlit("database failure");
            reveal_strlit("serialization failure");
            reveal_strlit("invalid event version");
            reveal_strlit("concurrency error");
            reveal_strlit("domain rule violation");
            reveal_strlit("no such read model store");
        }
        match self {
            FrameworkError::DatabaseError => "database failure",
            FrameworkError::SerializationError => "serialization failure",
            FrameworkError::InvalidEventVersion(_, _) => "invalid event version",
            FrameworkError::ConcurrencyError => "concurrency error",
            FrameworkError::DomainRuleViolation => "domain rule violation",
            FrameworkError::NoSuchReadModelStore => "no such read model store",
        }
    }

    /// What `describe` returns for each variant.
    pub open spec fn describe_spec(self) -> Seq<char> {
        match self {
            FrameworkError::DatabaseError => "database failure"@,
            FrameworkError::SerializationError => "serialization failure"@,
            FrameworkError::InvalidEventVersion(_, _) => "invalid event version"@,
            FrameworkError::ConcurrencyError => "concurrency error"@,
            FrameworkError::DomainRuleViolation => "domain rule violation"@,
            FrameworkError::NoSuchReadModelStore => "no such read model store"@,
        }
    }
}

} // verus!
