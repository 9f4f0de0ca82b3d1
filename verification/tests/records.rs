use agentos_core::knowledge::KnowledgeActor;
use agentos_core::records::{KnowledgeAuditRecord, KnowledgeBlobMetadata, KnowledgeEventEnvelope};

const TS: i64 = 1_779_624_000; // 2026-05-24T12:00:00Z

fn json(text: &str) -> serde_json::Value {
    serde_json::from_str(text).unwrap()
}

#[test]
fn event_envelope_starts_without_links_or_hashes() {
    let payload = json(r#"{"object_id": "obj-1"}"#);
    let event = KnowledgeEventEnvelope::new(
        "evt-1",
        "object.created",
        "tx-1",
        KnowledgeActor::engine("user-1"),
        payload.clone(),
        TS,
    );
    assert_eq!(event.event_id.0, "evt-1");
    assert_eq!(event.event_type, "object.created");
    assert_eq!(event.schema_version, "0.1.0");
    assert_eq!(event.transaction_id.0, "tx-1");
    assert_eq!(event.timestamp, TS);
    assert_eq!(event.payload, payload);
    assert!(event.causation_id.is_none() && event.correlation_id.is_none());
    assert!(event.evidence_refs.is_empty() && event.audit_refs.is_empty());
    assert!(event.prev_event_hash.is_none() && event.event_hash.is_none());
    assert_eq!(event.actor.actor_id, "knowledge-engine");
}

#[test]
fn blob_metadata_records_hash_and_storage() {
    let blob = KnowledgeBlobMetadata::sha256("abc123", 42, "image/png", "blobs/ab/abc123", TS).unwrap();
    assert_eq!(blob.blob_hash, "abc123");
    assert_eq!(blob.size_bytes, 42);
    assert_eq!(blob.mime_type_detected, "image/png");
    assert_eq!(blob.compression, "none");
    assert_eq!(
        blob.integrity,
        json(r#"{"hash_algorithm": "sha256", "verified_at": "2026-05-24T12:00:00Z"}"#)
    );
    assert_eq!(blob.storage, json(r#"{"path": "blobs/ab/abc123", "encrypted": false}"#));
    assert!(KnowledgeBlobMetadata::sha256("h", 1, "m", "p", i64::MAX).is_none());
}

#[test]
fn query_audit_summarizes_what_was_returned() {
    let audit = KnowledgeAuditRecord::query(
        "audit-1",
        "op-1",
        KnowledgeActor::llm("model-1", "user-1"),
        "/knowledge/search",
        "hash-1",
        2,
        vec!["kb-1".to_string(), "kb-2".to_string()],
        TS,
    );
    assert_eq!(audit.audit_id.0, "audit-1");
    assert_eq!(audit.operation_type, "query");
    assert_eq!(audit.operation_id, "op-1");
    assert!(audit.transaction_id.is_none());
    assert_eq!(audit.interface, json(r#"{"kind": "engine_api", "endpoint": "/knowledge/search"}"#));
    assert_eq!(audit.target, json("{}"));
    assert_eq!(audit.request, json(r#"{"params_hash": "hash-1"}"#));
    assert_eq!(audit.process, json("{}"));
    assert_eq!(
        audit.result,
        json(
            r#"{"status": "returned", "result_summary": {"result_count": 2, "returned_ids": ["kb-1", "kb-2"], "truncated": false}}"#
        )
    );
    assert!(audit.prev_audit_hash.is_none() && audit.audit_hash.is_none());
}
