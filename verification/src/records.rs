//! Records of the knowledge engine's event log, blob store and audit
//! trail: the envelope of an event, the metadata of a stored blob and the
//! audit record of a query, with the JSON parts they are built with.
use crate::json::{
    json_array, json_array_value, json_bool, json_bool_value, json_object, json_object_value,
    json_string, json_string_value, json_u64, json_u64_value,
};
use crate::knowledge::{
    EvidenceRefId, KnowledgeActor, KnowledgeAuditId, KnowledgeEventId, KnowledgeTransactionId,
};
use crate::markdown_entry::{utc_date, utc_date_text};
use crate::text::{owned, IntoText};
use vstd::prelude::*;

verus! {

/// Append-only event envelope: the event log is the authoritative history
/// of object, attribute, relation, claim, evidence, asset and blob changes.
/// The time is Unix seconds.
#[derive(Debug, Clone, PartialEq)]
pub struct KnowledgeEventEnvelope {
    pub event_id: KnowledgeEventId,
    pub event_type: String,
    pub schema_version: String,
    pub timestamp: i64,
    pub transaction_id: KnowledgeTransactionId,
    pub causation_id: Option<String>,
    pub correlation_id: Option<String>,
    pub actor: KnowledgeActor,
    pub payload: serde_json::Value,
    pub evidence_refs: Vec<EvidenceRefId>,
    pub audit_refs: Vec<KnowledgeAuditId>,
    pub prev_event_hash: Option<String>,
    pub event_hash: Option<String>,
}

impl KnowledgeEventEnvelope {
    /// An event of schema version `0.1.0`, with no causation, correlation,
    /// references or hashes yet.
    pub fn new<I: IntoText, T: IntoText, X: IntoText>(
        event_id: I,
        event_type: T,
        transaction_id: X,
        actor: KnowledgeActor,
        payload: serde_json::Value,
        timestamp: i64,
    ) -> (r: Self)
        ensures
            r.event_id@ == event_id.text(),
            r.event_type@ == event_type.text(),
            r.schema_version@ == "0.1.0"@,
            r.timestamp == timestamp,
            r.transaction_id@ == transaction_id.text(),
            r.causation_id is None,
            r.correlation_id is None,
            r.actor == actor,
            r.payload == payload,
            r.evidence_refs@.len() == 0,
            r.audit_refs@.len() == 0,
            r.prev_event_hash is None,
            r.event_hash is None,
    {
        KnowledgeEventEnvelope {
            event_id: KnowledgeEventId::from(event_id),
            event_type: event_type.into_text(),
            schema_version: owned("0.1.0"),
            timestamp,
            transaction_id: KnowledgeTransactionId::from(transaction_id),
            causation_id: None,
            correlation_id: None,
            actor,
            payload,
            evidence_refs: Vec::new(),
            audit_refs: Vec::new(),
            prev_event_hash: None,
            event_hash: None,
        }
    }
}

/// Metadata of a stored blob; the time is Unix seconds.
#[derive(Debug, Clone, PartialEq)]
pub struct KnowledgeBlobMetadata {
    pub blob_hash: String,
    pub size_bytes: u64,
    pub mime_type_detected: String,
    pub compression: String,
    pub created_at: i64,
    pub integrity: serde_json::Value,
    pub storage: serde_json::Value,
}

/// The text a time is written as in records: RFC 3339 in UTC, to the
/// second.
pub open spec fn record_time(secs: i64) -> Option<Seq<char>> {
    utc_date(secs, "%Y-%m-%dT%H:%M:%SZ"@)
}

/// The integrity part of a SHA-256 blob's metadata verified at the time
/// written `verified_at`.
pub open spec fn sha256_integrity(verified_at: Seq<char>) -> serde_json::Value {
    json_object_value(
        seq![
            ("hash_algorithm"@, json_string_value("sha256"@)),
            ("verified_at"@, json_string_value(verified_at)),
        ],
    )
}

/// The storage part of a blob's metadata: its path, unencrypted.
pub open spec fn blob_storage(path: Seq<char>) -> serde_json::Value {
    json_object_value(seq![("path"@, json_string_value(path)), ("encrypted"@, json_bool_value(false))])
}

impl KnowledgeBlobMetadata {
    /// The metadata of an uncompressed SHA-256 blob stored at
    /// `relative_path`, verified when it was created; `None` when
    /// `created_at` is outside the times a record can be written for.
    pub fn sha256<H: IntoText, M: IntoText, P: IntoText>(
        hash: H,
        size_bytes: u64,
        mime_type_detected: M,
        relative_path: P,
        created_at: i64,
    ) -> (r: Option<Self>)
        ensures
            record_time(created_at) is None ==> r is None,
            record_time(created_at) matches Some(t) ==> (r matches Some(b) && b.blob_hash@ == hash.text()
                && b.size_bytes == size_bytes && b.mime_type_detected@ == mime_type_detected.text()
                && b.compression@ == "none"@ && b.created_at == created_at && b.integrity
                == sha256_integrity(t) && b.storage == blob_storage(relative_path.text())),
    {
        let verified_at = match utc_date_text(created_at, "%Y-%m-%dT%H:%M:%SZ") {
            Some(t) => t,
            None => {
                return None;
            },
        };
        let ghost t = verified_at@;
        let integrity_entries = vec![
            (owned("hash_algorithm"), json_string(owned("sha256"))),
            (owned("verified_at"), json_string(verified_at)),
        ];
        proof {
            assert(integrity_entries@.map_values(|e: (String, serde_json::Value)| (e.0@, e.1)) =~= seq![
                ("hash_algorithm"@, json_string_value("sha256"@)),
                ("verified_at"@, json_string_value(t)),
            ]);
        }
        let path = relative_path.into_text();
        let ghost p = path@;
        let storage_entries = vec![(owned("path"), json_string(path)), (owned("encrypted"), json_bool(false))];
        proof {
            assert(storage_entries@.map_values(|e: (String, serde_json::Value)| (e.0@, e.1)) =~= seq![
                ("path"@, json_string_value(p)),
                ("encrypted"@, json_bool_value(false)),
            ]);
        }
        Some(KnowledgeBlobMetadata {
            blob_hash: hash.into_text(),
            size_bytes,
            mime_type_detected: mime_type_detected.into_text(),
            compression: owned("none"),
            created_at,
            integrity: json_object(integrity_entries),
            storage: json_object(storage_entries),
        })
    }
}

/// Immutable audit record of a query or command; query audit is first
/// class because retrieved context can shape what a model decides. The
/// time is Unix seconds.
#[derive(Debug, Clone, PartialEq)]
pub struct KnowledgeAuditRecord {
    pub audit_id: KnowledgeAuditId,
    pub timestamp: i64,
    pub operation_type: String,
    pub operation_id: String,
    pub transaction_id: Option<KnowledgeTransactionId>,
    pub actor: KnowledgeActor,
    pub interface: serde_json::Value,
    pub target: serde_json::Value,
    pub request: serde_json::Value,
    pub process: serde_json::Value,
    pub result: serde_json::Value,
    pub prev_audit_hash: Option<String>,
    pub audit_hash: Option<String>,
}

/// The interface part of a query audit: the engine API at `endpoint`.
pub open spec fn engine_interface(endpoint: Seq<char>) -> serde_json::Value {
    json_object_value(seq![("kind"@, json_string_value("engine_api"@)), ("endpoint"@, json_string_value(endpoint))])
}

/// The result part of a query audit: returned, with the count and ids of
/// what came back, untruncated.
pub open spec fn query_audit_result(count: u64, ids: Seq<Seq<char>>) -> serde_json::Value {
    json_object_value(
        seq![
            ("status"@, json_string_value("returned"@)),
            (
                "result_summary"@,
                json_object_value(
                    seq![
                        ("result_count"@, json_u64_value(count)),
                        ("returned_ids"@, json_array_value(ids.map_values(|s: Seq<char>| json_string_value(s)))),
                        ("truncated"@, json_bool_value(false)),
                    ],
                ),
            ),
        ],
    )
}

impl KnowledgeAuditRecord {
    /// The audit record of a query through the engine API at `endpoint`,
    /// with the hash of its parameters and what it returned.
    pub fn query<A: IntoText, O: IntoText, E: IntoText, H: IntoText>(
        audit_id: A,
        operation_id: O,
        actor: KnowledgeActor,
        endpoint: E,
        params_hash: H,
        result_count: usize,
        returned_ids: Vec<String>,
        timestamp: i64,
    ) -> (r: Self)
        ensures
            r.audit_id@ == audit_id.text(),
            r.timestamp == timestamp,
            r.operation_type@ == "query"@,
            r.operation_id@ == operation_id.text(),
            r.transaction_id is None,
            r.actor == actor,
            r.interface == engine_interface(endpoint.text()),
            r.target == json_object_value(Seq::empty()),
            r.request == json_object_value(seq![("params_hash"@, json_string_value(params_hash.text()))]),
            r.process == json_object_value(Seq::empty()),
            r.result == query_audit_result(
                result_count as u64,
                returned_ids@.map_values(|s: String| s@),
            ),
            r.prev_audit_hash is None,
            r.audit_hash is None,
    {
        let ep = endpoint.into_text();
        let ghost epv = ep@;
        let interface_entries = vec![(owned("kind"), json_string(owned("engine_api"))), (owned("endpoint"), json_string(ep))];
        assert(interface_entries@.map_values(|e: (String, serde_json::Value)| (e.0@, e.1)) =~= seq![
            ("kind"@, json_string_value("engine_api"@)),
            ("endpoint"@, json_string_value(epv)),
        ]);
        let ph = params_hash.into_text();
        let ghost phv = ph@;
        let request_entries = vec![(owned("params_hash"), json_string(ph))];
        assert(request_entries@.map_values(|e: (String, serde_json::Value)| (e.0@, e.1)) =~= seq![
            ("params_hash"@, json_string_value(phv)),
        ]);
        let ghost idv = returned_ids@.map_values(|s: String| s@);
        let mut items: Vec<serde_json::Value> = Vec::new();
        let mut i: usize = 0;
        while i < returned_ids.len()
            invariant
                i <= returned_ids@.len(),
                idv == returned_ids@.map_values(|s: String| s@),
                items@ == idv.take(i as int).map_values(|s: Seq<char>| json_string_value(s)),
            decreases returned_ids@.len() - i,
        {
            items.push(json_string(returned_ids[i].clone()));
            assert(idv.take(i + 1).map_values(|s: Seq<char>| json_string_value(s)) =~= idv.take(i as int).map_values(
                |s: Seq<char>| json_string_value(s),
            ).push(json_string_value(idv[i as int])));
            i = i + 1;
        }
        assert(idv.take(idv.len() as int) =~= idv);
        let count = result_count as u64;
        let summary_entries = vec![
            (owned("result_count"), json_u64(count)),
            (owned("returned_ids"), json_array(items)),
            (owned("truncated"), json_bool(false)),
        ];
        assert(summary_entries@.map_values(|e: (String, serde_json::Value)| (e.0@, e.1)) =~= seq![
            ("result_count"@, json_u64_value(count)),
            ("returned_ids"@, json_array_value(idv.map_values(|s: Seq<char>| json_string_value(s)))),
            ("truncated"@, json_bool_value(false)),
        ]);
        let summary = json_object(summary_entries);
        let result_entries = vec![(owned("status"), json_string(owned("returned"))), (owned("result_summary"), summary)];
        assert(result_entries@.map_values(|e: (String, serde_json::Value)| (e.0@, e.1)) =~= seq![
            ("status"@, json_string_value("returned"@)),
            (
                "result_summary"@,
                json_object_value(
                    seq![
                        ("result_count"@, json_u64_value(count)),
                        ("returned_ids"@, json_array_value(idv.map_values(|s: Seq<char>| json_string_value(s)))),
                        ("truncated"@, json_bool_value(false)),
                    ],
                ),
            ),
        ]);
        let empty_target: Vec<(String, serde_json::Value)> = Vec::new();
        let empty_process: Vec<(String, serde_json::Value)> = Vec::new();
        assert(empty_target@.map_values(|e: (String, serde_json::Value)| (e.0@, e.1)) =~= Seq::empty());
        assert(empty_process@.map_values(|e: (String, serde_json::Value)| (e.0@, e.1)) =~= Seq::empty());
        KnowledgeAuditRecord {
            audit_id: KnowledgeAuditId::from(audit_id),
            timestamp,
            operation_type: owned("query"),
            operation_id: operation_id.into_text(),
            transaction_id: None,
            actor,
            interface: json_object(interface_entries),
            target: json_object(empty_target),
            request: json_object(request_entries),
            process: json_object(empty_process),
            result: json_object(result_entries),
            prev_audit_hash: None,
            audit_hash: None,
        }
    }
}

} // verus!
