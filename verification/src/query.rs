//! Queries: the read path.
//!
//! A query declares, through its handler, which read-model store type it
//! reads and what it returns.  The framework resolves the store from the
//! wired composite and invokes the handler with it.

use vstd::prelude::*;

use crate::error::FrameworkError;
use crate::read_model::ReadModelStore;

verus! {

/// A request against one read-model store.
pub trait Query: Sized {
    /// The handler that answers this query.
    type Handler: QueryHandler<Self>;
}

/// Answers one query type against its declared read-model store.
pub trait QueryHandler<Q>: Sized {
    /// The store this handler reads.
    type ReadModelStore: ReadModelStore;

    /// What the query returns.
    type Output;

    /// What answering the query against a given store state yields.
    spec fn handle_spec(store: Self::ReadModelStore, query: Q) -> Result<
        Self::Output,
        FrameworkError,
    >;

    /// Answers `query` against `read_model_store`.
    fn handle(read_model_store: &Self::ReadModelStore, query: Q) -> (r: Result<
        Self::Output,
        FrameworkError,
    >)
        requires
            read_model_store.inv(),
        ensures
            r == Self::handle_spec(*read_model_store, query),
    ;
}

} // verus!
