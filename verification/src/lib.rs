//! An event-sourcing / CQRS runtime core.
//!
//! The library reconstructs aggregate state from a versioned event log
//! (optionally accelerated by snapshots), executes commands against that
//! state to produce new events, and propagates those events to read-model
//! projections and registered observers.  Routing of heterogeneous events
//! to heterogeneous read-model stores is done by closed, tagged-variant
//! dispatch: every event carries an `EventTypeId` tag and every read model
//! declares which tags it consumes.

pub mod aggregate;
pub mod command;
pub mod employee;
pub mod error;
pub mod event;
pub mod event_listener;
pub mod framework;
pub mod journal;
pub mod memory_event_store;
pub mod query;
pub mod read_model;
pub mod repository;
pub mod snapshot;

pub use aggregate::{Aggregate, AggregateTypeId};
pub use command::Command;
pub use error::FrameworkError;
pub use event::{Event, EventStore, EventTypeId};
pub use event_listener::EventListener;
pub use framework::Framework;
pub use memory_event_store::MemoryEventStore;
pub use query::{Query, QueryHandler};
pub use read_model::{
    HasStore, MemoryReadModelStore, NoStores, ReadModel, ReadModelStore, ReadModelStores,
};
pub use repository::AggregateRepository;
pub use snapshot::{DummySnapshotStore, MemorySnapshotStore, SnapshotStore};
