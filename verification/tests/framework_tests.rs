use framework::employee::{
    EmployeeAggregate, EmployeeAuditQuery, EmployeeCommand, EmployeeEvent, EmployeeNameQuery,
    EmployeeQuery, EmployeeStores,
};
use framework::{Aggregate, Framework, FrameworkError, MemoryEventStore, MemorySnapshotStore};

type EmployeeCallback = fn(&EmployeeEvent) -> Result<(), FrameworkError>;

type EmployeeFramework = Framework<
    EmployeeAggregate,
    MemoryEventStore<EmployeeEvent>,
    MemorySnapshotStore<EmployeeAggregate>,
    EmployeeStores,
    EmployeeCallback,
>;

fn new_framework() -> EmployeeFramework {
    Framework::new(
        MemoryEventStore::new(),
        MemorySnapshotStore::new(),
        EmployeeStores::new(),
    )
}

fn create(id: u64, name: &str, address: &str) -> EmployeeCommand {
    EmployeeCommand::CreateEmployee {
        id,
        name: name.to_string(),
        address: address.to_string(),
    }
}

#[test]
fn end_to_end_scenario() {
    let mut fw = new_framework();

    fw.command(create(1, "test", "address")).unwrap();
    let employee = fw.query(EmployeeQuery { id: 1 }).unwrap().unwrap();
    assert_eq!(employee.id, 1);
    assert_eq!(employee.name.as_deref(), Some("test"));
    assert_eq!(employee.address.as_deref(), Some("address"));

    fw.command(EmployeeCommand::ChangeName {
        id: 1,
        name: "new name".to_string(),
    })
    .unwrap();
    let employee = fw.query(EmployeeQuery { id: 1 }).unwrap().unwrap();
    assert_eq!(employee.name.as_deref(), Some("new name"));
    assert_eq!(employee.address.as_deref(), Some("address"));

    fw.command(EmployeeCommand::ChangeAddress {
        id: 1,
        address: "new address".to_string(),
    })
    .unwrap();
    let employee = fw.query(EmployeeQuery { id: 1 }).unwrap().unwrap();
    assert_eq!(employee.name.as_deref(), Some("new name"));
    assert_eq!(employee.address.as_deref(), Some("new address"));
}

#[test]
fn query_before_any_command_finds_nothing() {
    let fw = new_framework();
    let employee = fw.query(EmployeeQuery { id: 1 }).unwrap();
    assert!(employee.is_none());
}

#[test]
fn query_for_unregistered_store_fails() {
    let mut fw = new_framework();
    fw.command(create(1, "test", "address")).unwrap();
    let r = fw.query(EmployeeAuditQuery { id: 1 });
    assert!(matches!(r, Err(FrameworkError::NoSuchReadModelStore)));
}

#[test]
fn name_view_ignores_address_changes() {
    let mut fw = new_framework();
    fw.command(create(1, "test", "address")).unwrap();
    fw.command(EmployeeCommand::ChangeAddress {
        id: 1,
        address: "elsewhere".to_string(),
    })
    .unwrap();
    let name_view = fw.query(EmployeeNameQuery { id: 1 }).unwrap().unwrap();
    assert_eq!(name_view.name.as_deref(), Some("test"));

    fw.command(EmployeeCommand::ChangeName {
        id: 1,
        name: "renamed".to_string(),
    })
    .unwrap();
    let name_view = fw.query(EmployeeNameQuery { id: 1 }).unwrap().unwrap();
    assert_eq!(name_view.name.as_deref(), Some("renamed"));
}

#[test]
fn commands_against_distinct_ids_stay_separate() {
    let mut fw = new_framework();
    fw.command(create(1, "one", "first street")).unwrap();
    fw.command(create(2, "two", "second street")).unwrap();
    let first = fw.query(EmployeeQuery { id: 1 }).unwrap().unwrap();
    let second = fw.query(EmployeeQuery { id: 2 }).unwrap().unwrap();
    assert_eq!(first.name.as_deref(), Some("one"));
    assert_eq!(second.name.as_deref(), Some("two"));
    assert!(fw.query(EmployeeQuery { id: 3 }).unwrap().is_none());
}

fn failing_callback(_event: &EmployeeEvent) -> Result<(), FrameworkError> {
    Err(FrameworkError::DatabaseError)
}

fn ok_callback(_event: &EmployeeEvent) -> Result<(), FrameworkError> {
    Ok(())
}

#[test]
fn callback_failure_surfaces_but_projections_stay() {
    let mut fw = new_framework();
    fw.register_event_callback(2, failing_callback);

    // creation is tagged 1: no callback fires
    fw.command(create(1, "test", "address")).unwrap();

    // the name change is tagged 2: the callback's error surfaces...
    let r = fw.command(EmployeeCommand::ChangeName {
        id: 1,
        name: "new name".to_string(),
    });
    assert!(matches!(r, Err(FrameworkError::DatabaseError)));

    // ...but the event stayed committed and the projections updated
    let employee = fw.query(EmployeeQuery { id: 1 }).unwrap().unwrap();
    assert_eq!(employee.name.as_deref(), Some("new name"));
}

#[test]
fn second_registration_for_a_tag_overwrites_the_first() {
    let mut fw = new_framework();
    fw.register_event_callback(1, failing_callback);
    fw.register_event_callback(1, ok_callback);
    // the surviving callback succeeds, so the command does too
    fw.command(create(1, "test", "address")).unwrap();
}

#[test]
fn domain_rejection_leaves_nothing_behind() {
    let mut fw = new_framework();
    // an aggregate whose version cannot be continued rejects any command;
    // nothing was created for the id, so the projection stays empty
    let exhausted = EmployeeAggregate {
        id: 9,
        version: u32::MAX,
        name: None,
        address: None,
    };
    let r = exhausted.handle(EmployeeCommand::ChangeName {
        id: 9,
        name: "x".to_string(),
    });
    assert!(matches!(r, Err(FrameworkError::DomainRuleViolation)));
    assert!(fw.query(EmployeeQuery { id: 9 }).unwrap().is_none());
}
