//! A sample employee domain wired through the framework.
//!
//! One aggregate (the employee record), three event kinds (created, name
//! changed, address changed), two wired projections (the full record and
//! a name-only view that ignores address changes), and one projection
//! type that is deliberately left unwired, so that querying it shows the
//! missing-store failure.

use vstd::prelude::*;

use crate::aggregate::Aggregate;
use crate::command::Command;
use crate::error::FrameworkError;
use crate::event::{Event, EventTypeId};
use crate::query::{Query, QueryHandler};
use crate::read_model::{
    lemma_project_total, store_after_update, update_read_model, HasStore, MemoryReadModelStore,
    ReadModel, ReadModelStore, ReadModelStores,
};

verus! {

/// A fact about one employee record.  Tag `1` is creation, tag `2` a name
/// change, tag `3` an address change.
pub enum EmployeeEvent {
    EmployeeCreated { version: u32, id: u64, name: String, address: String },
    NameChanged { version: u32, name: String },
    AddressChanged { version: u32, address: String },
}

impl Event for EmployeeEvent {
    open spec fn type_id_spec(self) -> EventTypeId {
        match self {
            EmployeeEvent::EmployeeCreated { .. } => 1,
            EmployeeEvent::NameChanged { .. } => 2,
            EmployeeEvent::AddressChanged { .. } => 3,
        }
    }

    open spec fn version_spec(self) -> u32 {
        match self {
            EmployeeEvent::EmployeeCreated { version, .. } => version,
            EmployeeEvent::NameChanged { version, .. } => version,
            EmployeeEvent::AddressChanged { version, .. } => version,
        }
    }

    fn type_id(&self) -> (r: EventTypeId) {
        match self {
            EmployeeEvent::EmployeeCreated { .. } => 1,
            EmployeeEvent::NameChanged { .. } => 2,
            EmployeeEvent::AddressChanged { .. } => 3,
        }
    }

    fn version(&self) -> (r: u32) {
        match self {
            EmployeeEvent::EmployeeCreated { version, .. } => *version,
            EmployeeEvent::NameChanged { version, .. } => *version,
            EmployeeEvent::AddressChanged { version, .. } => *version,
        }
    }

    fn dup(&self) -> (r: Self) {
        match self {
            EmployeeEvent::EmployeeCreated { version, id, name, address } => {
                EmployeeEvent::EmployeeCreated {
                    version: *version,
                    id: *id,
                    name: name.clone(),
                    address: address.clone(),
                }
            },
            EmployeeEvent::NameChanged { version, name } => {
                EmployeeEvent::NameChanged { version: *version, name: name.clone() }
            },
            EmployeeEvent::AddressChanged { version, address } => {
                EmployeeEvent::AddressChanged { version: *version, address: address.clone() }
            },
        }
    }
}

/// An intent against one employee record.
pub enum EmployeeCommand {
    CreateEmployee { id: u64, name: String, address: String },
    ChangeName { id: u64, name: String },
    ChangeAddress { id: u64, address: String },
}

impl Command for EmployeeCommand {
    open spec fn aggregate_id_spec(self) -> u64 {
        match self {
            EmployeeCommand::CreateEmployee { id, .. } => id,
            EmployeeCommand::ChangeName { id, .. } => id,
            EmployeeCommand::ChangeAddress { id, .. } => id,
        }
    }

    fn aggregate_id(&self) -> (r: u64) {
        match self {
            EmployeeCommand::CreateEmployee { id, .. } => *id,
            EmployeeCommand::ChangeName { id, .. } => *id,
            EmployeeCommand::ChangeAddress { id, .. } => *id,
        }
    }
}

/// The employee record: the state folded from its event history.  The
/// name and address are `None` until a creation or change event sets
/// them.
pub struct EmployeeAggregate {
    pub id: u64,
    pub version: u32,
    pub name: Option<String>,
    pub address: Option<String>,
}

impl Aggregate for EmployeeAggregate {
    type Command = EmployeeCommand;

    type Event = EmployeeEvent;

    open spec fn type_id_spec() -> u32 {
        1
    }

    open spec fn initial_spec() -> Self {
        EmployeeAggregate { id: 0, version: 0, name: None, address: None }
    }

    open spec fn version_spec(self) -> u32 {
        self.version
    }

    open spec fn apply_spec(self, event: EmployeeEvent) -> Self {
        match event {
            EmployeeEvent::EmployeeCreated { version, id, name, address } => {
                EmployeeAggregate { id, version, name: Some(name), address: Some(address) }
            },
            EmployeeEvent::NameChanged { version, name } => {
                EmployeeAggregate { id: self.id, version, name: Some(name), address: self.address }
            },
            EmployeeEvent::AddressChanged { version, address } => {
                EmployeeAggregate {
                    id: self.id,
                    version,
                    name: self.name,
                    address: Some(address),
                }
            },
        }
    }

    open spec fn handle_spec(self, command: EmployeeCommand) -> Result<
        Seq<EmployeeEvent>,
        FrameworkError,
    > {
        if self.version == u32::MAX {
            Err(FrameworkError::DomainRuleViolation)
        } else {
            let version = (self.version + 1) as u32;
            match command {
                EmployeeCommand::CreateEmployee { id, name, address } => Ok(
                    seq![EmployeeEvent::EmployeeCreated { version, id, name, address }],
                ),
                EmployeeCommand::ChangeName { id, name } => Ok(
                    seq![EmployeeEvent::NameChanged { version, name }],
                ),
                EmployeeCommand::ChangeAddress { id, address } => Ok(
                    seq![EmployeeEvent::AddressChanged { version, address }],
                ),
            }
        }
    }

    proof fn lemma_initial_version() {
    }

    proof fn lemma_apply_version(s: Self, event: EmployeeEvent) {
    }

    proof fn lemma_handle_versions(s: Self, command: EmployeeCommand) {
        if s.version < u32::MAX {
            let events = s.handle_spec(command)->Ok_0;
            assert(events.len() == 1);
            assert(events[0].version_spec() == s.version_spec() + 1);
        }
    }

    fn type_id() -> (r: u32) {
        1
    }

    fn initial() -> (a: Self) {
        EmployeeAggregate { id: 0, version: 0, name: None, address: None }
    }

    fn version(&self) -> (v: u32) {
        self.version
    }

    fn handle(&self, command: EmployeeCommand) -> (r: Result<Vec<EmployeeEvent>, FrameworkError>) {
        if self.version == u32::MAX {
            return Err(FrameworkError::DomainRuleViolation);
        }
        let version = self.version + 1;
        let mut events: Vec<EmployeeEvent> = Vec::new();
        match command {
            EmployeeCommand::CreateEmployee { id, name, address } => {
                events.push(EmployeeEvent::EmployeeCreated { version, id, name, address });
            },
            EmployeeCommand::ChangeName { id: _, name } => {
                events.push(EmployeeEvent::NameChanged { version, name });
            },
            EmployeeCommand::ChangeAddress { id: _, address } => {
                events.push(EmployeeEvent::AddressChanged { version, address });
            },
        }
        proof {
            assert(events@ =~= self.handle_spec(command)->Ok_0);
        }
        Ok(events)
    }

    fn apply_one(&mut self, event: &EmployeeEvent) {
        match event {
            EmployeeEvent::EmployeeCreated { version, id, name, address } => {
                self.version = *version;
                self.id = *id;
                self.name = Some(name.clone());
                self.address = Some(address.clone());
            },
            EmployeeEvent::NameChanged { version, name } => {
                self.version = *version;
                self.name = Some(name.clone());
            },
            EmployeeEvent::AddressChanged { version, address } => {
                self.version = *version;
                self.address = Some(address.clone());
            },
        }
    }

    fn dup(&self) -> (r: Self) {
        EmployeeAggregate {
            id: self.id,
            version: self.version,
            name: match &self.name {
                Some(name) => Some(name.clone()),
                None => None,
            },
            address: match &self.address {
                Some(address) => Some(address.clone()),
                None => None,
            },
        }
    }
}

/// The full employee record as a projection: consumes every employee
/// event.
pub struct EmployeeReadModel {
    pub id: u64,
    pub name: Option<String>,
    pub address: Option<String>,
}

impl ReadModel for EmployeeReadModel {
    type Event = EmployeeEvent;

    open spec fn initial_spec() -> Self {
        EmployeeReadModel { id: 0, name: None, address: None }
    }

    open spec fn consumes_spec(event_type: EventTypeId) -> bool {
        true
    }

    open spec fn apply_spec(self, event: EmployeeEvent) -> Result<Self, FrameworkError> {
        match event {
            EmployeeEvent::EmployeeCreated { version: _, id, name, address } => Ok(
                EmployeeReadModel { id, name: Some(name), address: Some(address) },
            ),
            EmployeeEvent::NameChanged { version: _, name } => Ok(
                EmployeeReadModel { id: self.id, name: Some(name), address: self.address },
            ),
            EmployeeEvent::AddressChanged { version: _, address } => Ok(
                EmployeeReadModel { id: self.id, name: self.name, address: Some(address) },
            ),
        }
    }

    fn initial() -> (m: Self) {
        EmployeeReadModel { id: 0, name: None, address: None }
    }

    fn consumes(event_type: EventTypeId) -> (r: bool) {
        true
    }

    fn apply_event(&mut self, event: &EmployeeEvent) -> (r: Result<(), FrameworkError>) {
        match event {
            EmployeeEvent::EmployeeCreated { version: _, id, name, address } => {
                self.id = *id;
                self.name = Some(name.clone());
                self.address = Some(address.clone());
            },
            EmployeeEvent::NameChanged { version: _, name } => {
                self.name = Some(name.clone());
            },
            EmployeeEvent::AddressChanged { version: _, address } => {
                self.address = Some(address.clone());
            },
        }
        Ok(())
    }

    fn dup(&self) -> (r: Self) {
        EmployeeReadModel {
            id: self.id,
            name: match &self.name {
                Some(name) => Some(name.clone()),
                None => None,
            },
            address: match &self.address {
                Some(address) => Some(address.clone()),
                None => None,
            },
        }
    }
}

/// A name-only view of the employee record: consumes creation and name
/// changes but ignores address changes.
pub struct EmployeeNameReadModel {
    pub name: Option<String>,
}

impl ReadModel for EmployeeNameReadModel {
    type Event = EmployeeEvent;

    open spec fn initial_spec() -> Self {
        EmployeeNameReadModel { name: None }
    }

    open spec fn consumes_spec(event_type: EventTypeId) -> bool {
        event_type == 1 || event_type == 2
    }

    open spec fn apply_spec(self, event: EmployeeEvent) -> Result<Self, FrameworkError> {
        match event {
            EmployeeEvent::EmployeeCreated { name, .. } => Ok(
                EmployeeNameReadModel { name: Some(name) },
            ),
            EmployeeEvent::NameChanged { name, .. } => Ok(
                EmployeeNameReadModel { name: Some(name) },
            ),
            EmployeeEvent::AddressChanged { .. } => Ok(self),
        }
    }

    fn initial() -> (m: Self) {
        EmployeeNameReadModel { name: None }
    }

    fn consumes(event_type: EventTypeId) -> (r: bool) {
        event_type == 1 || event_type == 2
    }

    fn apply_event(&mut self, event: &EmployeeEvent) -> (r: Result<(), FrameworkError>) {
        match event {
            EmployeeEvent::EmployeeCreated { name, .. } => {
                self.name = Some(name.clone());
            },
            EmployeeEvent::NameChanged { name, .. } => {
                self.name = Some(name.clone());
            },
            EmployeeEvent::AddressChanged { .. } => {},
        }
        Ok(())
    }

    fn dup(&self) -> (r: Self) {
        EmployeeNameReadModel {
            name: match &self.name {
                Some(name) => Some(name.clone()),
                None => None,
            },
        }
    }
}

/// An audit-trail projection that the sample wiring deliberately leaves
/// unwired: a query that names its store fails with
/// `NoSuchReadModelStore`.
pub struct EmployeeAuditReadModel {
    pub changes: u64,
}

impl ReadModel for EmployeeAuditReadModel {
    type Event = EmployeeEvent;

    open spec fn initial_spec() -> Self {
        EmployeeAuditReadModel { changes: 0 }
    }

    open spec fn consumes_spec(event_type: EventTypeId) -> bool {
        true
    }

    open spec fn apply_spec(self, event: EmployeeEvent) -> Result<Self, FrameworkError> {
        if self.changes < u64::MAX {
            Ok(EmployeeAuditReadModel { changes: (self.changes + 1) as u64 })
        } else {
            Ok(self)
        }
    }

    fn initial() -> (m: Self) {
        EmployeeAuditReadModel { changes: 0 }
    }

    fn consumes(event_type: EventTypeId) -> (r: bool) {
        true
    }

    fn apply_event(&mut self, event: &EmployeeEvent) -> (r: Result<(), FrameworkError>) {
        if self.changes < u64::MAX {
            self.changes = self.changes + 1;
        }
        Ok(())
    }

    fn dup(&self) -> (r: Self) {
        EmployeeAuditReadModel { changes: self.changes }
    }
}

/// The sample wiring: the full record and the name-only view, each in its
/// own in-memory store.  Assembled once; lookups are established at
/// construction.
pub struct EmployeeStores {
    pub employees: MemoryReadModelStore<EmployeeReadModel>,
    pub names: MemoryReadModelStore<EmployeeNameReadModel>,
}

impl EmployeeStores {
    /// Fresh, empty projection stores.
    pub fn new() -> (r: Self)
        ensures
            r.inv(),
            forall|id: u64| #[trigger] r.employees.model_at(id) is None,
            forall|id: u64| #[trigger] r.names.model_at(id) is None,
    {
        EmployeeStores {
            employees: MemoryReadModelStore::new(),
            names: MemoryReadModelStore::new(),
        }
    }
}

/// Every fold of the full-record projection succeeds.
pub proof fn lemma_employee_read_model_total()
    ensures
        forall|m: EmployeeReadModel, e: EmployeeEvent| #[trigger] m.apply_spec(e) is Ok,
{
}

/// Every fold of the name-only projection succeeds.
pub proof fn lemma_employee_name_read_model_total()
    ensures
        forall|m: EmployeeNameReadModel, e: EmployeeEvent| #[trigger] m.apply_spec(e) is Ok,
{
}

impl ReadModelStores<EmployeeEvent> for EmployeeStores {
    open spec fn inv(self) -> bool {
        self.employees.inv() && self.names.inv()
    }

    open spec fn update_ok(pre: Self, post: Self, id: u64, events: Seq<EmployeeEvent>) -> bool {
        &&& (store_after_update(pre.employees, id, events) matches Ok(m) && post.employees.model_at(
            id,
        ) == Some(m))
        &&& (store_after_update(pre.names, id, events) matches Ok(m) && post.names.model_at(id)
            == Some(m))
        &&& forall|other: u64|
            other != id ==> #[trigger] post.employees.model_at(other) == pre.employees.model_at(
                other,
            )
        &&& forall|other: u64|
            other != id ==> #[trigger] post.names.model_at(other) == pre.names.model_at(other)
    }

    open spec fn update_err(
        pre: Self,
        post: Self,
        id: u64,
        events: Seq<EmployeeEvent>,
        e: FrameworkError,
    ) -> bool {
        false
    }

    fn update_read_model(&mut self, id: u64, events: &Vec<EmployeeEvent>) -> (r: Result<
        (),
        FrameworkError,
    >) {
        match crate::read_model::update_read_model(&mut self.employees, id, events) {
            Ok(()) => {},
            Err(e) => {
                proof {
                    lemma_employee_read_model_total();
                    lemma_project_total(
                        match old(self).employees.model_at(id) {
                            Some(m) => m,
                            None => EmployeeReadModel::initial_spec(),
                        },
                        crate::read_model::consumed_events::<EmployeeReadModel>(events@),
                    );
                    assert(false);
                }
                return Err(e);
            },
        }
        match crate::read_model::update_read_model(&mut self.names, id, events) {
            Ok(()) => {},
            Err(e) => {
                proof {
                    lemma_employee_name_read_model_total();
                    lemma_project_total(
                        match old(self).names.model_at(id) {
                            Some(m) => m,
                            None => EmployeeNameReadModel::initial_spec(),
                        },
                        crate::read_model::consumed_events::<EmployeeNameReadModel>(events@),
                    );
                    assert(false);
                }
                return Err(e);
            },
        }
        Ok(())
    }
}

impl HasStore<MemoryReadModelStore<EmployeeReadModel>> for EmployeeStores {
    open spec fn find_inv(self) -> bool {
        true
    }

    open spec fn store_spec(self) -> Option<MemoryReadModelStore<EmployeeReadModel>> {
        Some(self.employees)
    }

    fn find(&self) -> (r: Option<&MemoryReadModelStore<EmployeeReadModel>>) {
        Some(&self.employees)
    }
}

impl HasStore<MemoryReadModelStore<EmployeeNameReadModel>> for EmployeeStores {
    open spec fn find_inv(self) -> bool {
        true
    }

    open spec fn store_spec(self) -> Option<MemoryReadModelStore<EmployeeNameReadModel>> {
        Some(self.names)
    }

    fn find(&self) -> (r: Option<&MemoryReadModelStore<EmployeeNameReadModel>>) {
        Some(&self.names)
    }
}

impl HasStore<MemoryReadModelStore<EmployeeAuditReadModel>> for EmployeeStores {
    open spec fn find_inv(self) -> bool {
        true
    }

    open spec fn store_spec(self) -> Option<MemoryReadModelStore<EmployeeAuditReadModel>> {
        None
    }

    fn find(&self) -> (r: Option<&MemoryReadModelStore<EmployeeAuditReadModel>>) {
        None
    }
}

/// Fetches the full employee record for one id.
pub struct EmployeeQuery {
    pub id: u64,
}

impl Query for EmployeeQuery {
    type Handler = EmployeeQueryHandler;
}

/// Answers [`EmployeeQuery`] by reading the full-record store.
pub struct EmployeeQueryHandler;

impl QueryHandler<EmployeeQuery> for EmployeeQueryHandler {
    type ReadModelStore = MemoryReadModelStore<EmployeeReadModel>;

    type Output = Option<EmployeeReadModel>;

    open spec fn handle_spec(
        store: MemoryReadModelStore<EmployeeReadModel>,
        query: EmployeeQuery,
    ) -> Result<Option<EmployeeReadModel>, FrameworkError> {
        Ok(store.model_at(query.id))
    }

    fn handle(read_model_store: &MemoryReadModelStore<EmployeeReadModel>, query: EmployeeQuery) -> (r:
        Result<Option<EmployeeReadModel>, FrameworkError>) {
        read_model_store.read(query.id)
    }
}

/// Fetches the name-only view for one id.
pub struct EmployeeNameQuery {
    pub id: u64,
}

impl Query for EmployeeNameQuery {
    type Handler = EmployeeNameQueryHandler;
}

/// Answers [`EmployeeNameQuery`] by reading the name-only store.
pub struct EmployeeNameQueryHandler;

impl QueryHandler<EmployeeNameQuery> for EmployeeNameQueryHandler {
    type ReadModelStore = MemoryReadModelStore<EmployeeNameReadModel>;

    type Output = Option<EmployeeNameReadModel>;

    open spec fn handle_spec(
        store: MemoryReadModelStore<EmployeeNameReadModel>,
        query: EmployeeNameQuery,
    ) -> Result<Option<EmployeeNameReadModel>, FrameworkError> {
        Ok(store.model_at(query.id))
    }

    fn handle(
        read_model_store: &MemoryReadModelStore<EmployeeNameReadModel>,
        query: EmployeeNameQuery,
    ) -> (r: Result<Option<EmployeeNameReadModel>, FrameworkError>) {
        read_model_store.read(query.id)
    }
}

/// Fetches the unwired audit projection for one id; against the sample
/// wiring this always fails with `NoSuchReadModelStore`.
pub struct EmployeeAuditQuery {
    pub id: u64,
}

impl Query for EmployeeAuditQuery {
    type Handler = EmployeeAuditQueryHandler;
}

/// Answers [`EmployeeAuditQuery`] by reading the audit store.
pub struct EmployeeAuditQueryHandler;

impl QueryHandler<EmployeeAuditQuery> for EmployeeAuditQueryHandler {
    type ReadModelStore = MemoryReadModelStore<EmployeeAuditReadModel>;

    type Output = Option<EmployeeAuditReadModel>;

    open spec fn handle_spec(
        store: MemoryReadModelStore<EmployeeAuditReadModel>,
        query: EmployeeAuditQuery,
    ) -> Result<Option<EmployeeAuditReadModel>, FrameworkError> {
        Ok(store.model_at(query.id))
    }

    fn handle(
        read_model_store: &MemoryReadModelStore<EmployeeAuditReadModel>,
        query: EmployeeAuditQuery,
    ) -> (r: Result<Option<EmployeeAuditReadModel>, FrameworkError>) {
        read_model_store.read(query.id)
    }
}

} // verus!
