//! Core domain types for Assistant-accessible linked entities.
use crate::text::IntoText;
use vstd::prelude::*;

verus! {

/// Unique identifier for an Assistant-accessible entity.
#[derive(Debug, Clone, PartialEq, Eq, Hash)]
pub struct EntityId(pub String);

impl View for EntityId {
    type V = Seq<char>;

    open spec fn view(&self) -> Seq<char> {
        self.0@
    }
}

impl IntoText for EntityId {
    open spec fn text(&self) -> Seq<char> {
        self@
    }

    fn into_text(self) -> (r: String) {
        self.0
    }
}

impl EntityId {
    /// Builds an id from text.
    pub fn from<T: IntoText>(s: T) -> (r: EntityId)
        ensures
            r@ == s.text(),
    {
        EntityId(s.into_text())
    }

    /// The id as it is displayed: its text.
    pub fn to_string(&self) -> (r: String)
        ensures
            r@ == self@,
    {
        self.0.clone()
    }

    /// The id as text.
    pub fn as_str(&self) -> (r: &str)
        ensures
            r@ == self@,
    {
        self.0.as_str()
    }

    /// Whether two ids hold the same text.
    pub fn same(&self, other: &EntityId) -> (r: bool)
        ensures
            r == (self@ == other@),
    {
        self.0 == other.0
    }
}

/// The broad category of entity.
#[derive(Debug, Clone, Copy, PartialEq, Eq, Hash)]
pub enum EntityKind {
    Browser,
    Mail,
    Knowledge,
    Reminder,
    Person,
    Device,
    Plugin,
    ExternalService,
    System,
}

/// A named capability exposed by an entity.
#[derive(Debug, Clone, PartialEq, Eq, Hash)]
pub struct EntityCapability {
    pub name: String,
    pub description: Option<String>,
}

impl EntityCapability {
    /// A capability without a description.
    pub fn new<N: IntoText>(name: N) -> (r: EntityCapability)
        ensures
            r.name@ == name.text(),
            r.description is None,
    {
        EntityCapability { name: name.into_text(), description: None }
    }

    /// A capability with a description.
    pub fn with_description<N: IntoText, D: IntoText>(name: N, description: D) -> (r:
        EntityCapability)
        ensures
            r.name@ == name.text(),
            r.description matches Some(d) && d@ == description.text(),
    {
        EntityCapability { name: name.into_text(), description: Some(description.into_text()) }
    }
}

/// Metadata describing an entity available to the Assistant.
#[derive(Debug, Clone, PartialEq, Eq)]
pub struct EntityDescriptor {
    pub id: EntityId,
    pub kind: EntityKind,
    pub display_name: String,
    pub capabilities: Vec<EntityCapability>,
    pub default_policy_ref: Option<String>,
}

impl EntityDescriptor {
    /// A descriptor with no capabilities and no default policy.
    pub fn new<I: IntoText, N: IntoText>(id: I, kind: EntityKind, display_name: N) -> (r:
        EntityDescriptor)
        ensures
            r.id@ == id.text(),
            r.kind == kind,
            r.display_name@ == display_name.text(),
            r.capabilities@.len() == 0,
            r.default_policy_ref is None,
    {
        EntityDescriptor {
            id: EntityId(id.into_text()),
            kind,
            display_name: display_name.into_text(),
            capabilities: Vec::new(),
            default_policy_ref: None,
        }
    }
}

/// Why an entity was linked to a conversation.
#[derive(Debug, Clone, Copy, PartialEq, Eq)]
pub enum LinkReason {
    UserRequested,
    AssistantSuggested,
    SystemDefault,
    ContextDetected,
}

/// Metadata binding an entity to a conversation; `linked_at` is a Unix
/// timestamp in seconds.
#[derive(Debug, Clone, PartialEq, Eq)]
pub struct LinkedEntityBinding {
    pub conversation_id: String,
    pub entity_id: EntityId,
    pub reason: LinkReason,
    pub linked_at: i64,
}

/// Registry errors.
#[derive(Debug, Clone, PartialEq, Eq)]
pub enum EntityRegistryError {
    DuplicateEntityId(EntityId),
}

/// Whether some descriptor in `s` carries the id `id`.
pub open spec fn has_entity_id(s: Seq<EntityDescriptor>, id: Seq<char>) -> bool {
    exists|i: int| 0 <= i < s.len() && (#[trigger] s[i]).id@ == id
}

/// No two descriptors in `s` share an id.
pub open spec fn unique_entity_ids(s: Seq<EntityDescriptor>) -> bool {
    forall|i: int, j: int|
        0 <= i < s.len() && 0 <= j < s.len() && i != j ==> (#[trigger] s[i]).id@ != (#[trigger] s[j]).id@
}

/// In-memory entity registry: descriptors in registration order, ids unique.
#[derive(Debug, Clone)]
pub struct EntityRegistry {
    entities: Vec<EntityDescriptor>,
}

impl View for EntityRegistry {
    type V = Seq<EntityDescriptor>;

    closed spec fn view(&self) -> Seq<EntityDescriptor> {
        self.entities@
    }
}

impl EntityRegistry {
    /// The registry's invariant: ids are unique.
    pub open spec fn wf(&self) -> bool {
        unique_entity_ids(self@)
    }

    /// An empty registry.
    pub fn new() -> (r: EntityRegistry)
        ensures
            r@.len() == 0,
            r.wf(),
    {
        EntityRegistry { entities: Vec::new() }
    }

    fn position(&self, id: &EntityId) -> (r: Option<usize>)
        ensures
            match r {
                Some(i) => i < self@.len() && self@[i as int].id@ == id@,
                None => !has_entity_id(self@, id@),
            },
    {
        let mut i: usize = 0;
        while i < self.entities.len()
            invariant
                i <= self.entities@.len(),
                forall|k: int| 0 <= k < i ==> (#[trigger] self.entities@[k]).id@ != id@,
            decreases self.entities@.len() - i,
        {
            if self.entities[i].id.same(id) {
                return Some(i);
            }
            i = i + 1;
        }
        None
    }

    /// Registers a descriptor; a second descriptor with the same id is rejected.
    pub fn register(&mut self, descriptor: EntityDescriptor) -> (r: Result<(), EntityRegistryError>)
        requires
            old(self).wf(),
        ensures
            final(self).wf(),
            has_entity_id(old(self)@, descriptor.id@) ==> (r matches Err(
                EntityRegistryError::DuplicateEntityId(e),
            ) && e@ == descriptor.id@ && final(self)@ == old(self)@),
            !has_entity_id(old(self)@, descriptor.id@) ==> (r is Ok && final(self)@ == old(
                self,
            )@.push(descriptor)),
    {
        match self.position(&descriptor.id) {
            Some(_) => Err(EntityRegistryError::DuplicateEntityId(descriptor.id)),
            None => {
                self.entities.push(descriptor);
                Ok(())
            },
        }
    }

    /// Looks up a descriptor by id.
    pub fn get(&self, id: &EntityId) -> (r: Option<&EntityDescriptor>)
        ensures
            r is Some <==> has_entity_id(self@, id@),
            r matches Some(d) ==> d.id@ == id@ && exists|i: int|
                0 <= i < self@.len() && self@[i] == *d,
    {
        match self.position(id) {
            Some(i) => Some(&self.entities[i]),
            None => None,
        }
    }

    /// Whether a descriptor with this id is registered.
    pub fn contains(&self, id: &EntityId) -> (r: bool)
        ensures
            r == has_entity_id(self@, id@),
    {
        self.position(id).is_some()
    }

    /// Number of registered entities.
    pub fn len(&self) -> (r: usize)
        ensures
            r == self@.len(),
    {
        self.entities.len()
    }

    /// Whether no entity is registered.
    pub fn is_empty(&self) -> (r: bool)
        ensures
            r == (self@.len() == 0),
    {
        self.entities.len() == 0
    }

    /// All registered descriptors, in registration order.
    pub fn iter(&self) -> (r: &[EntityDescriptor])
        ensures
            r@ == self@,
    {
        self.entities.as_slice()
    }
}

/// Registering a new id and then looking it up finds exactly the registered
/// descriptor; every id registered before stays registered.
pub proof fn law_register_then_contains(
    before: Seq<EntityDescriptor>,
    d: EntityDescriptor,
    other: Seq<char>,
)
    requires
        unique_entity_ids(before),
        !has_entity_id(before, d.id@),
    ensures
        has_entity_id(before.push(d), d.id@),
        unique_entity_ids(before.push(d)),
        has_entity_id(before, other) ==> has_entity_id(before.push(d), other),
        forall|i: int|
            0 <= i < before.push(d).len() && (#[trigger] before.push(d)[i]).id@ == d.id@ ==> before.push(
                d,
            )[i] == d,
{
    let after = before.push(d);
    assert(after[before.len() as int] == d);
    if has_entity_id(before, other) {
        let i = choose|i: int| 0 <= i < before.len() && (#[trigger] before[i]).id@ == other;
        assert(after[i] == before[i]);
    }
    assert forall|i: int| 0 <= i < after.len() && (#[trigger] after[i]).id@ == d.id@ implies after[i]
        == d by {
        if i < before.len() {
            assert(after[i] == before[i]);
            assert(has_entity_id(before, d.id@));
        }
    }
}

} // verus!
