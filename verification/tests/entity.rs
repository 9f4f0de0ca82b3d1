use agentos_core::entity::{
    EntityCapability, EntityDescriptor, EntityId, EntityKind, EntityRegistry, EntityRegistryError,
};

fn browser_descriptor() -> EntityDescriptor {
    EntityDescriptor {
        id: EntityId::from("browser-main"),
        kind: EntityKind::Browser,
        display_name: "Browser".to_string(),
        capabilities: vec![
            EntityCapability::with_description("open_url", "Open a URL in the browser"),
            EntityCapability::new("read_page"),
        ],
        default_policy_ref: Some("policy/browser/default".to_string()),
    }
}

#[test]
fn registry_can_register_and_lookup_entity() {
    let descriptor = browser_descriptor();
    let id = descriptor.id.clone();
    let mut registry = EntityRegistry::new();

    registry.register(descriptor.clone()).unwrap();

    assert_eq!(registry.len(), 1);
    assert!(registry.contains(&id));
    assert_eq!(registry.get(&id), Some(&descriptor));
}

#[test]
fn registry_rejects_duplicate_entity_id() {
    let descriptor = browser_descriptor();
    let mut registry = EntityRegistry::new();

    registry.register(descriptor.clone()).unwrap();
    let result = registry.register(descriptor.clone());

    assert_eq!(result.unwrap_err(), EntityRegistryError::DuplicateEntityId(descriptor.id));
    assert_eq!(registry.len(), 1);
}

#[test]
fn entity_id_display() {
    let id = EntityId::from("knowledge-main");
    assert_eq!(id.to_string(), "knowledge-main");
    assert_eq!(id.as_str(), "knowledge-main");
}

#[test]
fn registry_keeps_registration_order_and_misses_unknown_ids() {
    let mut registry = EntityRegistry::new();
    assert!(registry.is_empty());
    registry.register(browser_descriptor()).unwrap();
    registry
        .register(EntityDescriptor::new("mail-main", EntityKind::Mail, "Mail"))
        .unwrap();
    let ids: Vec<&str> = registry.iter().iter().map(|d| d.id.as_str()).collect();
    assert_eq!(ids, vec!["browser-main", "mail-main"]);
    assert!(!registry.contains(&EntityId::from("nope")));
    assert_eq!(registry.get(&EntityId::from("nope")), None);
}

#[test]
fn capability_builders() {
    let plain = EntityCapability::new("read_page");
    assert_eq!(plain.name, "read_page");
    assert_eq!(plain.description, None);
    let described = EntityCapability::with_description("open_url", "Open a URL");
    assert_eq!(described.description.as_deref(), Some("Open a URL"));
}
