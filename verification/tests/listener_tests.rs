use framework::employee::EmployeeEvent;
use framework::read_model::NoStores;
use framework::{EventListener, FrameworkError};

type Callback = fn(&EmployeeEvent) -> Result<(), FrameworkError>;

fn reject_everything(_event: &EmployeeEvent) -> Result<(), FrameworkError> {
    Err(FrameworkError::SerializationError)
}

fn accept_everything(_event: &EmployeeEvent) -> Result<(), FrameworkError> {
    Ok(())
}

fn created(version: u32) -> EmployeeEvent {
    EmployeeEvent::EmployeeCreated {
        version,
        id: 1,
        name: "test".to_string(),
        address: "address".to_string(),
    }
}

fn name_changed(version: u32, name: &str) -> EmployeeEvent {
    EmployeeEvent::NameChanged {
        version,
        name: name.to_string(),
    }
}

#[test]
fn events_without_callbacks_dispatch_to_nobody() {
    let listener: EventListener<EmployeeEvent, Callback> = EventListener::new();
    let mut stores = NoStores;
    let events = vec![created(1), name_changed(2, "after")];
    listener.handle_events(&mut stores, 1, events).unwrap();
}

#[test]
fn a_callback_failure_aborts_dispatch() {
    let mut listener: EventListener<EmployeeEvent, Callback> = EventListener::new();
    listener.register_callback(2, reject_everything);
    let mut stores = NoStores;

    // only tag 1 is produced: the tag-2 callback stays silent
    listener
        .handle_events(&mut stores, 1, vec![created(1)])
        .unwrap();

    // tag 2 is produced: its callback's error surfaces
    let r = listener.handle_events(&mut stores, 1, vec![created(1), name_changed(2, "after")]);
    assert!(matches!(r, Err(FrameworkError::SerializationError)));
}

#[test]
fn registering_again_overwrites() {
    let mut listener: EventListener<EmployeeEvent, Callback> = EventListener::new();
    listener.register_callback(1, reject_everything);
    listener.register_callback(1, accept_everything);
    let mut stores = NoStores;
    listener
        .handle_events(&mut stores, 1, vec![created(1)])
        .unwrap();
}

#[test]
fn error_descriptions_name_each_failure() {
    assert_eq!(FrameworkError::DatabaseError.describe(), "database failure");
    assert_eq!(
        FrameworkError::SerializationError.describe(),
        "serialization failure"
    );
    assert_eq!(
        FrameworkError::InvalidEventVersion(1, 2).describe(),
        "invalid event version"
    );
    assert_eq!(
        FrameworkError::ConcurrencyError.describe(),
        "concurrency error"
    );
    assert_eq!(
        FrameworkError::DomainRuleViolation.describe(),
        "domain rule violation"
    );
    assert_eq!(
        FrameworkError::NoSuchReadModelStore.describe(),
        "no such read model store"
    );
}
