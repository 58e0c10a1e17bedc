use framework::aggregate::apply_events;
use framework::employee::{EmployeeAggregate, EmployeeCommand, EmployeeEvent};
use framework::{
    Aggregate, AggregateRepository, DummySnapshotStore, EventStore, FrameworkError,
    MemoryEventStore, MemorySnapshotStore, SnapshotStore,
};

type CachedRepository = AggregateRepository<
    EmployeeAggregate,
    MemoryEventStore<EmployeeEvent>,
    MemorySnapshotStore<EmployeeAggregate>,
>;

type UncachedRepository =
    AggregateRepository<EmployeeAggregate, MemoryEventStore<EmployeeEvent>, DummySnapshotStore>;

fn create(id: u64, name: &str, address: &str) -> EmployeeCommand {
    EmployeeCommand::CreateEmployee {
        id,
        name: name.to_string(),
        address: address.to_string(),
    }
}

fn run_command_cached(repo: &mut CachedRepository, id: u64, command: EmployeeCommand) {
    let aggregate = repo.read(id).unwrap();
    let events = aggregate.handle(command).unwrap();
    repo.save(id, &events).unwrap();
}

fn run_command_uncached(repo: &mut UncachedRepository, id: u64, command: EmployeeCommand) {
    let aggregate = repo.read(id).unwrap();
    let events = aggregate.handle(command).unwrap();
    repo.save(id, &events).unwrap();
}

#[test]
fn versions_grow_by_one_per_command() {
    let mut repo: CachedRepository =
        AggregateRepository::new(MemoryEventStore::new(), MemorySnapshotStore::new());
    assert_eq!(repo.read(1).unwrap().version(), 0);

    run_command_cached(&mut repo, 1, create(1, "test", "address"));
    assert_eq!(repo.read(1).unwrap().version(), 1);

    run_command_cached(
        &mut repo,
        1,
        EmployeeCommand::ChangeName {
            id: 1,
            name: "new name".to_string(),
        },
    );
    assert_eq!(repo.read(1).unwrap().version(), 2);

    run_command_cached(
        &mut repo,
        1,
        EmployeeCommand::ChangeAddress {
            id: 1,
            address: "new address".to_string(),
        },
    );
    let a = repo.read(1).unwrap();
    assert_eq!(a.version(), 3);
    assert_eq!(a.name.as_deref(), Some("new name"));
    assert_eq!(a.address.as_deref(), Some("new address"));
}

fn history() -> Vec<EmployeeCommand> {
    vec![
        EmployeeCommand::CreateEmployee {
            id: 5,
            name: "test".to_string(),
            address: "address".to_string(),
        },
        EmployeeCommand::ChangeName {
            id: 5,
            name: "renamed".to_string(),
        },
        EmployeeCommand::ChangeAddress {
            id: 5,
            address: "moved".to_string(),
        },
        EmployeeCommand::ChangeName {
            id: 5,
            name: "renamed again".to_string(),
        },
    ]
}

#[test]
fn replay_is_the_same_with_and_without_snapshots() {
    let mut cached: CachedRepository =
        AggregateRepository::new(MemoryEventStore::new(), MemorySnapshotStore::new());
    let mut uncached: UncachedRepository =
        AggregateRepository::new(MemoryEventStore::new(), DummySnapshotStore);

    for command in history() {
        run_command_cached(&mut cached, 5, command);
    }
    for command in history() {
        run_command_uncached(&mut uncached, 5, command);
    }

    let with_snapshot = cached.read(5).unwrap();
    let from_scratch = uncached.read(5).unwrap();
    assert_eq!(with_snapshot.version(), from_scratch.version());
    assert_eq!(with_snapshot.id, from_scratch.id);
    assert_eq!(with_snapshot.name, from_scratch.name);
    assert_eq!(with_snapshot.address, from_scratch.address);
    assert_eq!(with_snapshot.version(), 4);
}

#[test]
fn apply_events_rejects_a_version_gap() {
    let mut aggregate = EmployeeAggregate::initial();
    let events = vec![EmployeeEvent::NameChanged {
        version: 2,
        name: "skipped".to_string(),
    }];
    let r = apply_events(&mut aggregate, &events);
    assert!(matches!(r, Err(FrameworkError::InvalidEventVersion(1, 2))));
    // the aggregate is untouched: the event was not applied
    assert_eq!(aggregate.version(), 0);
    assert_eq!(aggregate.name, None);
}

#[test]
fn apply_events_rejects_a_repeated_version() {
    let mut aggregate = EmployeeAggregate::initial();
    let events = vec![
        EmployeeEvent::NameChanged {
            version: 1,
            name: "first".to_string(),
        },
        EmployeeEvent::NameChanged {
            version: 1,
            name: "again".to_string(),
        },
    ];
    let r = apply_events(&mut aggregate, &events);
    assert!(matches!(r, Err(FrameworkError::InvalidEventVersion(2, 1))));
    assert_eq!(aggregate.version(), 0);
}

#[test]
fn apply_events_folds_a_consecutive_batch() {
    let mut aggregate = EmployeeAggregate::initial();
    let events = vec![
        EmployeeEvent::EmployeeCreated {
            version: 1,
            id: 4,
            name: "test".to_string(),
            address: "address".to_string(),
        },
        EmployeeEvent::NameChanged {
            version: 2,
            name: "after".to_string(),
        },
    ];
    apply_events(&mut aggregate, &events).unwrap();
    assert_eq!(aggregate.version(), 2);
    assert_eq!(aggregate.id, 4);
    assert_eq!(aggregate.name.as_deref(), Some("after"));
    assert_eq!(aggregate.address.as_deref(), Some("address"));
}

#[test]
fn apply_events_accepts_an_empty_batch() {
    let mut aggregate = EmployeeAggregate::initial();
    let events: Vec<EmployeeEvent> = Vec::new();
    apply_events(&mut aggregate, &events).unwrap();
    assert_eq!(aggregate.version(), 0);
}

#[test]
fn concurrent_saves_collide_at_the_event_store() {
    let mut store: MemoryEventStore<EmployeeEvent> = MemoryEventStore::new();
    // two writers both read version 0 and compute version-1 batches
    let base = EmployeeAggregate::initial();
    let first = base.handle(create(7, "writer one", "here")).unwrap();
    let second = base
        .handle(EmployeeCommand::ChangeName {
            id: 7,
            name: "writer two".to_string(),
        })
        .unwrap();

    store.save(7, &first).unwrap();
    let r = store.save(7, &second);
    assert!(matches!(r, Err(FrameworkError::ConcurrencyError)));

    // exactly the first batch is in the log
    let log = store.read(7, 0).unwrap();
    assert_eq!(log.len(), 1);
}

#[test]
fn concurrent_saves_collide_at_the_repository() {
    let mut repo: CachedRepository =
        AggregateRepository::new(MemoryEventStore::new(), MemorySnapshotStore::new());
    let stale = repo.read(3).unwrap();
    let first = stale.handle(create(3, "one", "a")).unwrap();
    let second = stale
        .handle(EmployeeCommand::ChangeName {
            id: 3,
            name: "two".to_string(),
        })
        .unwrap();

    repo.save(3, &first).unwrap();
    let r = repo.save(3, &second);
    assert!(matches!(r, Err(FrameworkError::ConcurrencyError)));
    // the losing writer retries from a fresh read and succeeds
    let fresh = repo.read(3).unwrap();
    assert_eq!(fresh.version(), 1);
    let retried = fresh
        .handle(EmployeeCommand::ChangeName {
            id: 3,
            name: "two".to_string(),
        })
        .unwrap();
    repo.save(3, &retried).unwrap();
    assert_eq!(repo.read(3).unwrap().version(), 2);
}

#[test]
fn event_store_read_filters_by_version() {
    let mut store: MemoryEventStore<EmployeeEvent> = MemoryEventStore::new();
    let mut aggregate = EmployeeAggregate::initial();
    let batch = aggregate.handle(create(2, "test", "address")).unwrap();
    store.save(2, &batch).unwrap();
    apply_events(&mut aggregate, &batch).unwrap();
    let batch = aggregate
        .handle(EmployeeCommand::ChangeName {
            id: 2,
            name: "renamed".to_string(),
        })
        .unwrap();
    store.save(2, &batch).unwrap();

    assert_eq!(store.read(2, 0).unwrap().len(), 2);
    assert_eq!(store.read(2, 1).unwrap().len(), 1);
    assert_eq!(store.read(2, 2).unwrap().len(), 0);
    assert_eq!(store.read(2, 99).unwrap().len(), 0);
    assert_eq!(store.read(8, 0).unwrap().len(), 0);
}

#[test]
fn dummy_snapshot_store_never_caches() {
    let mut store = DummySnapshotStore;
    let aggregate = EmployeeAggregate {
        id: 1,
        version: 3,
        name: Some("test".to_string()),
        address: None,
    };
    SnapshotStore::save(&mut store, 1, &aggregate).unwrap();
    let cached: Option<EmployeeAggregate> = SnapshotStore::read(&store, 1).unwrap();
    assert!(cached.is_none());
}

#[test]
fn memory_snapshot_store_returns_the_last_save() {
    let mut store: MemorySnapshotStore<EmployeeAggregate> = MemorySnapshotStore::new();
    assert!(store.read(1).unwrap().is_none());
    let first = EmployeeAggregate {
        id: 1,
        version: 1,
        name: Some("a".to_string()),
        address: None,
    };
    let second = EmployeeAggregate {
        id: 1,
        version: 2,
        name: Some("b".to_string()),
        address: None,
    };
    store.save(1, &first).unwrap();
    store.save(1, &second).unwrap();
    let cached = store.read(1).unwrap().unwrap();
    assert_eq!(cached.version, 2);
    assert_eq!(cached.name.as_deref(), Some("b"));
    assert!(store.read(2).unwrap().is_none());
}
