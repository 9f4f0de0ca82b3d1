use agentos_core::governance::{
    KnowledgeGovernanceRecord, KnowledgeReviewQueueItem, MemoryKnowledgeGovernanceStore,
};
use agentos_core::knowledge::{
    KnowledgeEntryId, KnowledgeGovernanceError, KnowledgeGovernanceStatus,
    KnowledgeGovernanceValidationError,
};

/// 2026-05-25T12:00:00Z in Unix seconds.
fn ts() -> i64 {
    1779710400
}

fn json(text: &str) -> serde_json::Value {
    serde_json::from_str(text).unwrap()
}

fn record(id: &str, status: KnowledgeGovernanceStatus, fm: &str) -> KnowledgeGovernanceRecord {
    KnowledgeGovernanceRecord::new(KnowledgeEntryId::from(id), status, json(fm), ts())
}

const READY: &str = r#"{ "title": "Ready", "summary": "Ready summary", "tags": ["ready"] }"#;
const EMPTY: &str = r#"{ "title": "", "summary": "", "tags": [] }"#;

#[test]
fn governance_validates_required_frontmatter_for_active_entries() {
    let valid = record(
        "knowledge-entry-1",
        KnowledgeGovernanceStatus::Draft,
        r#"{ "title": "AgentOS", "summary": "Durable memory", "tags": ["memory"] }"#,
    );
    assert!(valid.validation_errors().is_empty());
    assert_eq!(valid.activate(ts()).unwrap().status, KnowledgeGovernanceStatus::Active);

    let invalid = record(
        "knowledge-entry-2",
        KnowledgeGovernanceStatus::Draft,
        r#"{ "title": "   ", "summary": "", "tags": [] }"#,
    );
    let all = vec![
        KnowledgeGovernanceValidationError::MissingTitle,
        KnowledgeGovernanceValidationError::MissingSummary,
        KnowledgeGovernanceValidationError::MissingTags,
    ];
    assert_eq!(invalid.validation_errors(), all);
    assert_eq!(invalid.activate(ts()).unwrap_err(), KnowledgeGovernanceError::ValidationFailed(all));
}

#[test]
fn governance_reports_wrong_types_as_missing() {
    let rec = record("e", KnowledgeGovernanceStatus::Draft, r#"{ "title": 5, "summary": "ok", "tags": "x" }"#);
    assert_eq!(
        rec.validation_errors(),
        vec![KnowledgeGovernanceValidationError::MissingTitle, KnowledgeGovernanceValidationError::MissingTags]
    );
}

#[test]
fn memory_governance_review_queue_lists_non_active_invalid_records() {
    let mut store = MemoryKnowledgeGovernanceStore::new();
    let invalid = store.upsert_record(record("knowledge-entry-1", KnowledgeGovernanceStatus::Draft, EMPTY)).unwrap();
    store.upsert_record(record("knowledge-entry-2", KnowledgeGovernanceStatus::Active, READY)).unwrap();
    let queue = store.review_queue().unwrap();
    assert_eq!(queue, vec![KnowledgeReviewQueueItem::from_record(&invalid)]);
}

#[test]
fn memory_governance_rejects_invalid_activation_and_keeps_out_of_active_index() {
    let mut store = MemoryKnowledgeGovernanceStore::new();
    store.upsert_record(record("knowledge-entry-1", KnowledgeGovernanceStatus::Draft, EMPTY)).unwrap();
    let err = store
        .transition_status(&KnowledgeEntryId::from("knowledge-entry-1"), KnowledgeGovernanceStatus::Active, ts())
        .unwrap_err();
    assert!(matches!(err, KnowledgeGovernanceError::ValidationFailed(_)));
    assert!(store.active_index_entry_ids().unwrap().is_empty());
}

#[test]
fn memory_governance_active_index_contains_only_valid_active_records() {
    let mut store = MemoryKnowledgeGovernanceStore::new();
    store.upsert_record(record("knowledge-entry-1", KnowledgeGovernanceStatus::Draft, READY)).unwrap();
    store
        .transition_status(&KnowledgeEntryId::from("knowledge-entry-1"), KnowledgeGovernanceStatus::Active, ts())
        .unwrap();
    store
        .upsert_record(record(
            "knowledge-entry-2",
            KnowledgeGovernanceStatus::Deprecated,
            r#"{ "title": "Old", "summary": "Old summary", "tags": ["old"] }"#,
        ))
        .unwrap();
    store.upsert_record(record("knowledge-entry-0", KnowledgeGovernanceStatus::Active, EMPTY)).unwrap();
    assert_eq!(store.active_index_entry_ids().unwrap(), vec![KnowledgeEntryId::from("knowledge-entry-1")]);
}

#[test]
fn memory_governance_transition_of_unknown_entry_fails() {
    let mut store = MemoryKnowledgeGovernanceStore::new();
    assert_eq!(
        store.transition_status(&KnowledgeEntryId::from("nope"), KnowledgeGovernanceStatus::Archived, ts()),
        Err(KnowledgeGovernanceError::NotFound("nope".to_string()))
    );
}

#[test]
fn memory_governance_lists_in_id_order() {
    let mut store = MemoryKnowledgeGovernanceStore::new();
    store.upsert_record(record("b", KnowledgeGovernanceStatus::Active, READY)).unwrap();
    store.upsert_record(record("a", KnowledgeGovernanceStatus::Active, READY)).unwrap();
    store.upsert_record(record("c", KnowledgeGovernanceStatus::Draft, EMPTY)).unwrap();
    store.upsert_record(record("d", KnowledgeGovernanceStatus::Archived, EMPTY)).unwrap();
    assert_eq!(
        store.active_index_entry_ids().unwrap(),
        vec![KnowledgeEntryId::from("a"), KnowledgeEntryId::from("b")]
    );
    let queue: Vec<_> = store.review_queue().unwrap().into_iter().map(|i| i.knowledge_entry_id.0).collect();
    assert_eq!(queue, vec!["c", "d"]);
    let archived = store
        .transition_status(&KnowledgeEntryId::from("b"), KnowledgeGovernanceStatus::Archived, ts() + 5)
        .unwrap();
    assert_eq!(archived.updated_at, ts() + 5);
    assert_eq!(store.active_index_entry_ids().unwrap(), vec![KnowledgeEntryId::from("a")]);
}
