use agentos_core::fulltext::{
    DeterministicFullTextKnowledgeBackend, KnowledgeIndexDocument, KnowledgeIndexRebuildRequest,
    PermissionAwareKnowledgeSearch,
};
use agentos_core::permission::{
    EnterpriseRole, EnterpriseUserId, EnterpriseUserLifecycle, EnterpriseUserStatus,
    PermissionAction, PermissionGrant, PermissionStore, ResourceId, ResourceType,
};
use agentos_core::knowledge::{KnowledgeEntryId, KnowledgeFullTextQuery, KnowledgeIndexError};
use agentos_core::repository::KnowledgeEntryRef;

const TS: i64 = 1_779_624_000;

fn entry(id: &str, title: &str) -> KnowledgeEntryRef {
    KnowledgeEntryRef {
        id: KnowledgeEntryId::from(id),
        title: title.to_string(),
        source_uri: None,
        artifact_id: None,
        asset_id: None,
        created_at: TS,
    }
}

fn json(text: &str) -> serde_json::Value {
    serde_json::from_str(text).unwrap()
}

#[test]
fn deterministic_fulltext_backend_ranks_title_matches_above_body_matches() {
    let mut backend = DeterministicFullTextKnowledgeBackend::new();
    backend
        .rebuild(KnowledgeIndexRebuildRequest {
            documents: vec![
                KnowledgeIndexDocument::new(
                    entry("knowledge-entry-1", "Architecture Notes"),
                    "agent memory architecture details".to_string(),
                ),
                KnowledgeIndexDocument::new(
                    entry("knowledge-entry-2", "Memory Architecture"),
                    "short note".to_string(),
                ),
            ],
            requested_at: TS,
        })
        .unwrap();
    let results = backend.query(&KnowledgeFullTextQuery::new("memory")).unwrap();
    assert_eq!(results.len(), 2);
    assert_eq!(results[0].entry.id, KnowledgeEntryId::from("knowledge-entry-2"));
    assert!(results[0].score > results[1].score);
    assert_eq!(results[0].score, 4);
    assert_eq!(results[1].score, 2);
}

#[test]
fn deterministic_fulltext_backend_indexes_title_body_tags_and_frontmatter() {
    let mut backend = DeterministicFullTextKnowledgeBackend::new();
    backend
        .rebuild(KnowledgeIndexRebuildRequest {
            documents: vec![KnowledgeIndexDocument::new(
                entry("knowledge-entry-1", "AgentOS Memory"),
                "long-term governance".to_string(),
            )
            .with_tags(vec!["knowledge".to_string()])
            .with_frontmatter(json(r#"{ "domain": "memory" }"#))],
            requested_at: TS,
        })
        .unwrap();
    for query in ["agentos", "governance", "knowledge", "memory"] {
        let results = backend.query(&KnowledgeFullTextQuery::new(query)).unwrap();
        assert_eq!(results.len(), 1, "query should match indexed field: {query}");
        assert_eq!(results[0].entry.id, KnowledgeEntryId::from("knowledge-entry-1"));
    }
    let memory = backend.query(&KnowledgeFullTextQuery::new("memory")).unwrap();
    assert_eq!(memory[0].score, 4 + 1);
}

#[test]
fn deterministic_fulltext_backend_breaks_score_ties_by_entry_id() {
    let mut backend = DeterministicFullTextKnowledgeBackend::new();
    backend
        .rebuild(KnowledgeIndexRebuildRequest {
            documents: vec![
                KnowledgeIndexDocument::new(entry("knowledge-entry-b", "Memory"), "body".to_string()),
                KnowledgeIndexDocument::new(entry("knowledge-entry-a", "Memory"), "body".to_string()),
            ],
            requested_at: TS,
        })
        .unwrap();
    let results = backend.query(&KnowledgeFullTextQuery::new("memory")).unwrap();
    assert_eq!(
        results.iter().map(|r| r.entry.id.clone()).collect::<Vec<_>>(),
        vec![
            KnowledgeEntryId::from("knowledge-entry-a"),
            KnowledgeEntryId::from("knowledge-entry-b")
        ]
    );
}

#[test]
fn memory_fulltext_index_rebuilds_and_queries_entries() {
    let mut index = DeterministicFullTextKnowledgeBackend::new();
    let first = KnowledgeIndexDocument::new(
        entry("knowledge-entry-1", "AgentOS Memory"),
        "long-term memory and asset governance".to_string(),
    )
    .with_tags(vec!["memory".to_string(), "agent-os".to_string()])
    .with_frontmatter(json(r#"{ "status": "active" }"#));
    let second = KnowledgeIndexDocument::new(
        entry("knowledge-entry-2", "Browser Kernel"),
        "browser security policy and takeover boundary".to_string(),
    )
    .with_tags(vec!["browser".to_string()]);
    let report = index
        .rebuild(KnowledgeIndexRebuildRequest { documents: vec![first, second], requested_at: TS })
        .unwrap();
    assert_eq!(report.indexed_count, 2);
    assert_eq!(report.deleted_count, 0);
    assert_eq!(report.rebuilt_at, TS);

    let results = index
        .query(&KnowledgeFullTextQuery::new("memory governance").with_limit(5))
        .unwrap();
    assert_eq!(results.len(), 1);
    assert_eq!(results[0].entry.title, "AgentOS Memory");
    assert!(results[0].score > 0);
    assert!(results[0].snippet.as_ref().unwrap().contains("memory"));

    let again = index
        .rebuild(KnowledgeIndexRebuildRequest {
            documents: vec![
                KnowledgeIndexDocument::new(entry("k-1", "One"), "first".to_string()),
                KnowledgeIndexDocument::new(entry("k-1", "One again"), "second".to_string()),
            ],
            requested_at: TS + 1,
        })
        .unwrap();
    assert_eq!(again.deleted_count, 2);
    assert_eq!(again.indexed_count, 1);
    let r = index.query(&KnowledgeFullTextQuery::new("second")).unwrap();
    assert_eq!(r.len(), 1);
    assert_eq!(r[0].entry.title, "One again");
}

#[test]
fn memory_fulltext_index_filters_by_tags_and_frontmatter() {
    let mut index = DeterministicFullTextKnowledgeBackend::new();
    index
        .rebuild(KnowledgeIndexRebuildRequest {
            documents: vec![
                KnowledgeIndexDocument::new(
                    entry("knowledge-entry-1", "Published Memory"),
                    "memory index content".to_string(),
                )
                .with_tags(vec!["memory".to_string()])
                .with_frontmatter(json(r#"{ "status": "published" }"#)),
                KnowledgeIndexDocument::new(
                    entry("knowledge-entry-2", "Draft Memory"),
                    "memory index content".to_string(),
                )
                .with_tags(vec!["memory".to_string()])
                .with_frontmatter(json(r#"{ "status": "draft" }"#)),
            ],
            requested_at: TS,
        })
        .unwrap();
    let results = index
        .query(
            &KnowledgeFullTextQuery::new("memory")
                .with_tags(vec!["memory".to_string()])
                .with_frontmatter_filter("status", "published"),
        )
        .unwrap();
    assert_eq!(results.len(), 1);
    assert_eq!(results[0].entry.id, KnowledgeEntryId::from("knowledge-entry-1"));
}

#[test]
fn memory_fulltext_index_upserts_and_deletes_documents() {
    let mut index = DeterministicFullTextKnowledgeBackend::new();
    index
        .upsert(KnowledgeIndexDocument::new(entry("knowledge-entry-1", "Original"), "original content".to_string()))
        .unwrap();
    index
        .upsert(KnowledgeIndexDocument::new(entry("knowledge-entry-1", "Updated"), "updated content".to_string()))
        .unwrap();
    let results = index.query(&KnowledgeFullTextQuery::new("updated")).unwrap();
    assert_eq!(results.len(), 1);
    assert_eq!(results[0].entry.title, "Updated");
    index.delete(&KnowledgeEntryId::from("knowledge-entry-1")).unwrap();
    assert!(index.query(&KnowledgeFullTextQuery::new("updated")).unwrap().is_empty());
}

#[test]
fn fulltext_query_rejects_zero_limit_and_truncates() {
    let mut index = DeterministicFullTextKnowledgeBackend::new();
    assert_eq!(
        index.query(&KnowledgeFullTextQuery::new("x").with_limit(0)).unwrap_err(),
        KnowledgeIndexError::InvalidQuery(
            "knowledge full-text query limit must be greater than zero".to_string()
        )
    );
    for i in 0..4 {
        index
            .upsert(KnowledgeIndexDocument::new(entry(&format!("e-{i}"), "same"), "text".to_string()))
            .unwrap();
    }
    let results = index.query(&KnowledgeFullTextQuery::new("").with_limit(2)).unwrap();
    assert_eq!(results.len(), 2);
    assert_eq!(results[0].entry.id, KnowledgeEntryId::from("e-0"));
    assert_eq!(results[0].score, 0);
}

fn read_grant(user: &str, role: EnterpriseRole, resource: &str, actions: Vec<PermissionAction>) -> PermissionGrant {
    PermissionGrant {
        grant_id: "grant-1".to_string(),
        user_id: EnterpriseUserId::from(user),
        role,
        resource_type: ResourceType::KnowledgeBase,
        resource_id: ResourceId::from(resource),
        actions,
        granted_at: TS,
        expires_at: None,
        revoked: false,
    }
}

fn public_and_secret_index() -> DeterministicFullTextKnowledgeBackend {
    let mut index = DeterministicFullTextKnowledgeBackend::new();
    index
        .upsert(KnowledgeIndexDocument::new(
            entry("public-entry", "Public Knowledge"),
            "public content".to_string(),
        ))
        .unwrap();
    index
        .upsert(KnowledgeIndexDocument::new(
            entry("secret-entry", "Secret Knowledge"),
            "secret content".to_string(),
        ))
        .unwrap();
    index
}

#[test]
fn permission_aware_search_filters_unauthorized_entries() {
    let mut store = PermissionStore::new();
    store.add_grant(read_grant("user-1", EnterpriseRole::User, "public-entry", vec![PermissionAction::Read]));
    let search = PermissionAwareKnowledgeSearch::new(public_and_secret_index(), store);
    let user = EnterpriseUserId::from("user-1");
    let query = KnowledgeFullTextQuery::new("knowledge");

    let results = search.query_with_permissions(&query, &user).unwrap();
    assert_eq!(results.len(), 1);
    assert_eq!(results[0].entry.id.0, "public-entry");
}

#[test]
fn permission_aware_search_allows_super_admin() {
    let mut index = DeterministicFullTextKnowledgeBackend::new();
    index
        .upsert(KnowledgeIndexDocument::new(
            entry("secret-entry", "Secret Knowledge"),
            "secret content".to_string(),
        ))
        .unwrap();
    let mut store = PermissionStore::new();
    store.add_grant(read_grant(
        "admin-1",
        EnterpriseRole::SuperAdmin,
        "secret-entry",
        vec![PermissionAction::Read, PermissionAction::Admin],
    ));
    let search = PermissionAwareKnowledgeSearch::new(index, store);
    let user = EnterpriseUserId::from("admin-1");
    let query = KnowledgeFullTextQuery::new("knowledge");

    let results = search.query_with_permissions(&query, &user).unwrap();
    assert_eq!(results.len(), 1);
    assert_eq!(results[0].entry.id.0, "secret-entry");
}

#[test]
fn permission_aware_knowledge_denies_offboarded_user() {
    let mut index = DeterministicFullTextKnowledgeBackend::new();
    index
        .upsert(KnowledgeIndexDocument::new(
            entry("kb-1", "Offboarded knowledge"),
            "knowledge body".to_string(),
        ))
        .unwrap();
    let mut store = PermissionStore::new();
    store.add_grant(read_grant("user-1", EnterpriseRole::User, "kb-1", vec![PermissionAction::Read]));
    store.set_user_lifecycle(EnterpriseUserStatus {
        user_id: EnterpriseUserId::from("user-1"),
        lifecycle: EnterpriseUserLifecycle::Offboarded,
        changed_at: TS,
        reason: None,
    });
    let search = PermissionAwareKnowledgeSearch::new(index, store);
    let query = KnowledgeFullTextQuery::new("knowledge");
    let results = search
        .query_with_permissions(&query, &EnterpriseUserId::from("user-1"))
        .unwrap();
    assert!(results.is_empty());
}

#[test]
fn permission_aware_search_keeps_rank_order_and_checks_limit() {
    let mut store = PermissionStore::new();
    store.add_grant(read_grant("user-1", EnterpriseRole::User, "public-entry", vec![PermissionAction::Read]));
    store.add_grant(read_grant("user-1", EnterpriseRole::User, "secret-entry", vec![PermissionAction::Read]));
    let search = PermissionAwareKnowledgeSearch::new(public_and_secret_index(), store);
    let user = EnterpriseUserId::from("user-1");
    let results = search
        .query_at(&KnowledgeFullTextQuery::new("knowledge"), &user, TS)
        .unwrap();
    let ids: Vec<&str> = results.iter().map(|r| r.entry.id.0.as_str()).collect();
    assert_eq!(ids, vec!["public-entry", "secret-entry"]);

    let mut zero = KnowledgeFullTextQuery::new("knowledge");
    zero.limit = 0;
    assert!(matches!(
        search.query_at(&zero, &user, TS),
        Err(KnowledgeIndexError::InvalidQuery(_))
    ));
    let stranger = EnterpriseUserId::from("user-9");
    assert!(search.query_at(&zero, &stranger, TS).is_err());
}
