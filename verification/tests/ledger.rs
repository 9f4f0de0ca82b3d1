use agentos_core::knowledge::{
    AnswerCacheError, AnswerCachePackageId, AnswerFreshnessPolicy,
    BrowserSnapshotId, CitationEvidenceError, EvidenceRefId, KnowledgeEntryId, QuestionAnswerRef,
    QuestionLedgerEntryId, QuestionLedgerError,
};
use agentos_core::ledger::{
    AnswerCacheCreateRequest, AnswerEvidenceRef, ArtifactId, CitationEvidenceRecord,
    CitationEvidenceRef, MemoryAnswerCacheStore, MemoryCitationEvidenceStore,
    MemoryQuestionLedger, PermissionAwareCitationEvidenceStore, QuestionLedgerCreateRequest,
    WorkObjectCrossEntityCoordinator, WorkObjectCrossEntityQuery, WorkObjectId,
};
use agentos_core::permission::{
    EnterpriseRole, EnterpriseUserId, PermissionAction, PermissionGrant, PermissionStore,
    ResourceId, ResourceType,
};

const TS: i64 = 1_779_624_000;

#[test]
fn answer_cache_create_request_collects_related_knowledge_from_evidence() {
    let request = AnswerCacheCreateRequest::new("answer-1", "Use durable storage.", TS)
        .with_question_id(QuestionLedgerEntryId::from("question-1"))
        .with_evidence_refs(vec![
            AnswerEvidenceRef::knowledge_entry(KnowledgeEntryId::from("knowledge-entry-1"), None),
            AnswerEvidenceRef::conversation_message("conversation-1", "message-1"),
        ])
        .with_freshness_policy(AnswerFreshnessPolicy::expires_after_days(14));

    assert_eq!(
        request.question_id,
        Some(QuestionLedgerEntryId::from("question-1"))
    );
    assert_eq!(request.evidence_refs.len(), 2);
    assert_eq!(
        request.related_knowledge_entry_ids(),
        vec![KnowledgeEntryId::from("knowledge-entry-1")]
    );
    assert_eq!(request.freshness_policy.expires_after_days, Some(14));
}

#[test]
fn question_ledger_create_request_from_conversation_message_is_stable() {
    let request = QuestionLedgerCreateRequest::from_conversation_message(
        "conversation-1",
        "message-1",
        "What should we do next?",
        TS,
    )
    .with_tags(vec!["planning".to_string()])
    .with_related_knowledge_entry_ids(vec![KnowledgeEntryId::from("knowledge-entry-1")]);

    assert_eq!(request.question, "What should we do next?");
    assert_eq!(request.conversation_id.as_deref(), Some("conversation-1"));
    assert_eq!(request.message_id.as_deref(), Some("message-1"));
    assert_eq!(request.tags, vec!["planning".to_string()]);
    assert_eq!(
        request.related_knowledge_entry_ids,
        vec![KnowledgeEntryId::from("knowledge-entry-1")]
    );
}

#[test]
fn citation_evidence_record_keeps_excerpt_and_ref() {
    let evidence = CitationEvidenceRecord::new(
        EvidenceRefId::from("evidence-1"),
        CitationEvidenceRef::conversation_message("conversation-1", "message-1"),
        TS,
    )
    .with_excerpt("User asked for durable answer traceability.");
    assert_eq!(
        evidence.excerpt.as_deref(),
        Some("User asked for durable answer traceability.")
    );
    assert_eq!(
        evidence.source_ref,
        CitationEvidenceRef::ConversationMessage {
            conversation_id: "conversation-1".to_string(),
            message_id: "message-1".to_string(),
        }
    );
}

#[test]
fn memory_citation_store_links_answer_to_traceable_evidence() {
    let mut store = MemoryCitationEvidenceStore::new();
    let source = store
        .register_evidence(
            CitationEvidenceRef::source_uri("https://example.com/source"),
            Some("source excerpt".to_string()),
            TS,
        )
        .unwrap();
    let artifact = store
        .register_evidence(
            CitationEvidenceRef::artifact(ArtifactId::from("artifact-1")),
            None,
            TS,
        )
        .unwrap();
    let conversation = store
        .register_evidence(
            CitationEvidenceRef::conversation_message("conversation-1", "message-1"),
            None,
            TS,
        )
        .unwrap();
    let browser = store
        .register_evidence(
            CitationEvidenceRef::browser_snapshot(
                BrowserSnapshotId::from("snapshot-1"),
                Some("https://example.com/page".to_string()),
            ),
            None,
            TS,
        )
        .unwrap();

    store.cite_answer("answer-1", &browser.id, TS).unwrap();
    store.cite_answer("answer-1", &source.id, TS).unwrap();
    store.cite_answer("answer-1", &conversation.id, TS).unwrap();
    store.cite_answer("answer-1", &artifact.id, TS).unwrap();

    let trace = store.trace_answer("answer-1").unwrap();
    assert_eq!(trace.answer_id, "answer-1");
    assert_eq!(
        trace.evidence.iter().map(|e| e.id.clone()).collect::<Vec<_>>(),
        vec![source.id, artifact.id, conversation.id, browser.id]
    );
    assert_eq!(trace.evidence[0].excerpt.as_deref(), Some("source excerpt"));
}

#[test]
fn memory_citation_store_rejects_missing_evidence_and_blank_answer() {
    let mut store = MemoryCitationEvidenceStore::new();
    assert_eq!(
        store
            .cite_answer("answer-1", &EvidenceRefId::from("missing"), TS)
            .unwrap_err(),
        CitationEvidenceError::NotFound("missing".to_string())
    );
    let evidence = store
        .register_evidence(CitationEvidenceRef::source_uri("https://example.com/source"), None, TS)
        .unwrap();
    assert_eq!(
        store.cite_answer("   ", &evidence.id, TS).unwrap_err(),
        CitationEvidenceError::BlankAnswerId
    );
    assert!(store.trace_answer("answer-1").unwrap().evidence.is_empty());
}

#[test]
fn memory_citation_store_dedupes_answer_citations() {
    let mut store = MemoryCitationEvidenceStore::new();
    let evidence = store
        .register_evidence(CitationEvidenceRef::source_uri("https://example.com/source"), None, TS)
        .unwrap();
    store.cite_answer("answer-1", &evidence.id, TS).unwrap();
    store.cite_answer("answer-1", &evidence.id, TS).unwrap();
    let trace = store.trace_answer("answer-1").unwrap();
    assert_eq!(trace.evidence, vec![evidence]);
}

#[test]
fn evidence_ids_are_numbered_and_traced_by_text_order() {
    let mut store = MemoryCitationEvidenceStore::new();
    let mut ids = Vec::new();
    for i in 0..11 {
        let e = store
            .register_evidence(CitationEvidenceRef::source_uri(format!("uri-{i}")), None, TS)
            .unwrap();
        ids.push(e.id.clone());
        store.cite_answer("answer-1", &e.id, TS).unwrap();
    }
    assert_eq!(ids[0], EvidenceRefId::from("evidence-1"));
    assert_eq!(ids[10], EvidenceRefId::from("evidence-11"));
    let trace = store.trace_answer("answer-1").unwrap();
    let traced: Vec<String> = trace.evidence.iter().map(|e| e.id.0.clone()).collect();
    assert_eq!(traced[0], "evidence-1");
    assert_eq!(traced[1], "evidence-10");
    assert_eq!(traced[2], "evidence-11");
    assert_eq!(traced[3], "evidence-2");
}

#[test]
fn memory_answer_cache_creates_versions_and_gets_latest_for_question() {
    let mut store = MemoryAnswerCacheStore::new();
    let first = store
        .create_package(
            AnswerCacheCreateRequest::new("answer-1", "First answer", TS)
                .with_question_id(QuestionLedgerEntryId::from("question-1")),
        )
        .unwrap();
    let second = store
        .create_package(
            AnswerCacheCreateRequest::new("answer-1", "Second answer", TS)
                .with_question_id(QuestionLedgerEntryId::from("question-1")),
        )
        .unwrap();

    assert_eq!(first.version.value(), 1);
    assert_eq!(second.version.value(), 2);
    let latest = store
        .latest_for_question(&QuestionLedgerEntryId::from("question-1"))
        .unwrap()
        .unwrap();
    assert_eq!(latest.id, second.id);
    assert_eq!(latest.answer_markdown, "Second answer");
    assert_eq!(
        store
            .latest_for_question(&QuestionLedgerEntryId::from("question-2"))
            .unwrap(),
        None
    );
}

#[test]
fn latest_prefers_later_update_then_smaller_id() {
    let mut store = MemoryAnswerCacheStore::new();
    let early = store
        .create_package(
            AnswerCacheCreateRequest::new("answer-a", "A", TS)
                .with_question_id(QuestionLedgerEntryId::from("q")),
        )
        .unwrap();
    let late = store
        .create_package(
            AnswerCacheCreateRequest::new("answer-b", "B", TS + 10)
                .with_question_id(QuestionLedgerEntryId::from("q")),
        )
        .unwrap();
    assert_eq!(early.version.value(), 1);
    assert_eq!(late.version.value(), 1);
    let latest = store
        .latest_for_question(&QuestionLedgerEntryId::from("q"))
        .unwrap()
        .unwrap();
    assert_eq!(latest.id, late.id);

    let mut same_time = MemoryAnswerCacheStore::new();
    let one = same_time
        .create_package(
            AnswerCacheCreateRequest::new("answer-a", "A", TS)
                .with_question_id(QuestionLedgerEntryId::from("q")),
        )
        .unwrap();
    same_time
        .create_package(
            AnswerCacheCreateRequest::new("answer-b", "B", TS)
                .with_question_id(QuestionLedgerEntryId::from("q")),
        )
        .unwrap();
    let latest = same_time
        .latest_for_question(&QuestionLedgerEntryId::from("q"))
        .unwrap()
        .unwrap();
    assert_eq!(latest.id, one.id);
    assert_eq!(latest.id, AnswerCachePackageId::from("answer-cache-1"));
}

#[test]
fn memory_answer_cache_gets_package_and_searches_by_knowledge_entry() {
    let mut store = MemoryAnswerCacheStore::new();
    let package = store
        .create_package(
            AnswerCacheCreateRequest::new("answer-1", "Evidence-backed answer", TS)
                .with_question_id(QuestionLedgerEntryId::from("question-1"))
                .with_evidence_refs(vec![AnswerEvidenceRef::knowledge_entry(
                    KnowledgeEntryId::from("knowledge-entry-1"),
                    Some("quote".to_string()),
                )]),
        )
        .unwrap();

    assert_eq!(store.get_package(&package.id).unwrap(), Some(package.clone()));
    assert_eq!(
        store
            .get_package(&AnswerCachePackageId::from("answer-cache-9"))
            .unwrap(),
        None
    );
    let by_knowledge = store
        .list_by_knowledge_entry(&KnowledgeEntryId::from("knowledge-entry-1"))
        .unwrap();
    assert_eq!(by_knowledge, vec![package]);
}

#[test]
fn memory_answer_cache_rejects_blank_answers() {
    let mut store = MemoryAnswerCacheStore::new();
    assert_eq!(
        store
            .create_package(AnswerCacheCreateRequest::new("answer-1", "   ", TS))
            .unwrap_err(),
        AnswerCacheError::BlankAnswer
    );
}

#[test]
fn related_knowledge_ids_are_deduplicated_in_order() {
    let request = AnswerCacheCreateRequest::new("answer-1", "text", TS).with_evidence_refs(vec![
        AnswerEvidenceRef::knowledge_entry(KnowledgeEntryId::from("k-2"), None),
        AnswerEvidenceRef::knowledge_entry(KnowledgeEntryId::from("k-1"), Some("q".to_string())),
        AnswerEvidenceRef::knowledge_entry(KnowledgeEntryId::from("k-2"), None),
    ]);
    assert_eq!(
        request.related_knowledge_entry_ids(),
        vec![KnowledgeEntryId::from("k-2"), KnowledgeEntryId::from("k-1")]
    );
}

#[test]
fn memory_question_ledger_creates_entries_from_conversation_messages() {
    let mut ledger = MemoryQuestionLedger::new();
    let entry = ledger
        .create_question(QuestionLedgerCreateRequest::from_conversation_message(
            "conversation-1",
            "message-1",
            "What should we do next?",
            TS,
        ))
        .unwrap();

    assert_eq!(entry.id, QuestionLedgerEntryId::from("question-1"));
    assert_eq!(entry.conversation_id.as_deref(), Some("conversation-1"));
    assert_eq!(entry.message_id.as_deref(), Some("message-1"));

    let by_conversation = ledger.list_by_conversation("conversation-1").unwrap();
    assert_eq!(by_conversation, vec![entry.clone()]);
    assert_eq!(ledger.get_question(&entry.id).unwrap(), Some(entry));
}

#[test]
fn memory_question_ledger_links_answer_and_knowledge_refs() {
    let mut ledger = MemoryQuestionLedger::new();
    let entry = ledger
        .create_question(QuestionLedgerCreateRequest::from_conversation_message(
            "conversation-1",
            "message-1",
            "What is the answer?",
            TS,
        ))
        .unwrap();
    let answer = QuestionAnswerRef {
        answer_id: "answer-1".to_string(),
        answer_cache_ref: Some("answer-cache/2026/05/question-1/v1".to_string()),
        knowledge_entry_id: Some(KnowledgeEntryId::from("knowledge-entry-1")),
    };
    let linked = ledger.link_answer(&entry.id, answer.clone(), TS + 5).unwrap();

    assert_eq!(linked.answer_ref.as_ref().unwrap().answer_id, "answer-1");
    assert_eq!(
        linked.answer_ref.as_ref().unwrap().knowledge_entry_id,
        Some(KnowledgeEntryId::from("knowledge-entry-1"))
    );
    assert_eq!(linked.updated_at, TS + 5);
    assert_eq!(
        linked.related_knowledge_entry_ids,
        vec![KnowledgeEntryId::from("knowledge-entry-1")]
    );
    let again = ledger.link_answer(&entry.id, answer, TS + 6).unwrap();
    assert_eq!(
        again.related_knowledge_entry_ids,
        vec![KnowledgeEntryId::from("knowledge-entry-1")]
    );
    assert_eq!(ledger.get_question(&entry.id).unwrap(), Some(again));
}

#[test]
fn memory_question_ledger_rejects_blank_questions_and_missing_ids() {
    let mut ledger = MemoryQuestionLedger::new();
    assert_eq!(
        ledger
            .create_question(QuestionLedgerCreateRequest::new("   ", TS))
            .unwrap_err(),
        QuestionLedgerError::BlankQuestion
    );
    assert_eq!(
        ledger
            .link_answer(
                &QuestionLedgerEntryId::from("missing"),
                QuestionAnswerRef {
                    answer_id: "answer-1".to_string(),
                    answer_cache_ref: None,
                    knowledge_entry_id: None,
                },
                TS,
            )
            .unwrap_err(),
        QuestionLedgerError::NotFound("missing".to_string())
    );
    assert_eq!(
        ledger
            .get_question(&QuestionLedgerEntryId::from("question-1"))
            .unwrap(),
        None
    );
}

#[test]
fn question_ledger_create_with_work_object_id_and_list_by_work_object() {
    let mut ledger = MemoryQuestionLedger::new();
    let wo_id = WorkObjectId::from("project-alpha");

    ledger
        .create_question(QuestionLedgerCreateRequest::new("Q1", TS).with_work_object_id(wo_id.clone()))
        .unwrap();
    ledger
        .create_question(QuestionLedgerCreateRequest::new("Q2", TS))
        .unwrap();
    ledger
        .create_question(QuestionLedgerCreateRequest::new("Q3", TS).with_work_object_id(wo_id.clone()))
        .unwrap();

    let results = ledger.list_by_work_object(&wo_id).unwrap();
    assert_eq!(results.len(), 2);
    assert_eq!(results[0].question, "Q1");
    assert_eq!(results[1].question, "Q3");

    let other = WorkObjectId::from("other-project");
    assert!(ledger.list_by_work_object(&other).unwrap().is_empty());
}

#[test]
fn answer_cache_create_with_work_object_id_and_list_by_work_object() {
    let mut store = MemoryAnswerCacheStore::new();
    let wo_id = WorkObjectId::from("project-alpha");

    store
        .create_package(
            AnswerCacheCreateRequest::new("answer-1", "First answer", TS)
                .with_work_object_id(wo_id.clone()),
        )
        .unwrap();
    store
        .create_package(AnswerCacheCreateRequest::new("answer-2", "Second answer", TS))
        .unwrap();
    store
        .create_package(
            AnswerCacheCreateRequest::new("answer-3", "Third answer", TS)
                .with_work_object_id(wo_id.clone()),
        )
        .unwrap();

    let results = store.list_by_work_object(&wo_id).unwrap();
    assert_eq!(results.len(), 2);
    assert_eq!(results[0].answer_id, "answer-1");
    assert_eq!(results[1].answer_id, "answer-3");

    let other = WorkObjectId::from("other-project");
    assert!(store.list_by_work_object(&other).unwrap().is_empty());
}

#[test]
fn work_object_cross_entity_coordinator_aggregates_questions_and_answers() {
    let mut ledger = MemoryQuestionLedger::new();
    let mut cache = MemoryAnswerCacheStore::new();
    let wo_id = WorkObjectId::from("project-alpha");

    let q = ledger
        .create_question(
            QuestionLedgerCreateRequest::new("What is X?", TS)
                .with_work_object_id(wo_id.clone())
                .with_related_knowledge_entry_ids(vec![KnowledgeEntryId::from("knowledge-entry-1")]),
        )
        .unwrap();
    cache
        .create_package(
            AnswerCacheCreateRequest::new("answer-1", "X is Y", TS)
                .with_work_object_id(wo_id.clone())
                .with_evidence_refs(vec![
                    AnswerEvidenceRef::knowledge_entry(KnowledgeEntryId::from("knowledge-entry-1"), None),
                    AnswerEvidenceRef::knowledge_entry(KnowledgeEntryId::from("knowledge-entry-0"), None),
                ]),
        )
        .unwrap();
    ledger
        .create_question(QuestionLedgerCreateRequest::new("Unrelated", TS))
        .unwrap();

    let coordinator = WorkObjectCrossEntityCoordinator::new(ledger, cache);
    let result = coordinator
        .query(&WorkObjectCrossEntityQuery::new(wo_id.clone()))
        .unwrap();

    assert_eq!(result.work_object_id, wo_id);
    assert_eq!(result.question_ids.len(), 1);
    assert_eq!(result.question_ids[0], q.id);
    assert_eq!(result.answer_ids, vec![AnswerCachePackageId::from("answer-cache-1")]);
    assert_eq!(
        result.knowledge_entry_ids,
        vec![
            KnowledgeEntryId::from("knowledge-entry-0"),
            KnowledgeEntryId::from("knowledge-entry-1")
        ]
    );
}

#[test]
fn work_object_cross_entity_coordinator_returns_empty_for_unknown_work_object() {
    let coordinator = WorkObjectCrossEntityCoordinator::new(
        MemoryQuestionLedger::new(),
        MemoryAnswerCacheStore::new(),
    );
    let result = coordinator
        .query(&WorkObjectCrossEntityQuery::new(WorkObjectId::from("nonexistent")))
        .unwrap();
    assert!(result.question_ids.is_empty());
    assert!(result.answer_ids.is_empty());
    assert!(result.knowledge_entry_ids.is_empty());
}

fn cited_artifact_store() -> MemoryCitationEvidenceStore {
    let mut store = MemoryCitationEvidenceStore::new();
    let evidence = store
        .register_evidence(
            CitationEvidenceRef::artifact(ArtifactId::from("artifact-1")),
            Some("excerpt".to_string()),
            TS,
        )
        .unwrap();
    store.cite_answer("answer-1", &evidence.id, TS).unwrap();
    store
}

#[test]
fn permission_aware_citation_filters_unauthorized_evidence() {
    let wrapper = PermissionAwareCitationEvidenceStore::new(cited_artifact_store(), PermissionStore::new());
    let user = EnterpriseUserId::from("user-1");
    let trace = wrapper.trace_answer_with_permissions("answer-1", &user).unwrap();
    assert!(trace.evidence.is_empty(), "evidence without grant must be filtered");
}

#[test]
fn permission_aware_citation_allows_authorized_evidence() {
    let mut perm_store = PermissionStore::new();
    perm_store.add_grant(PermissionGrant {
        grant_id: "grant-1".to_string(),
        user_id: EnterpriseUserId::from("user-1"),
        role: EnterpriseRole::User,
        resource_type: ResourceType::KnowledgeBase,
        resource_id: ResourceId::from("artifact-1"),
        actions: vec![PermissionAction::Read],
        granted_at: TS,
        expires_at: None,
        revoked: false,
    });
    let wrapper = PermissionAwareCitationEvidenceStore::new(cited_artifact_store(), perm_store);
    let user = EnterpriseUserId::from("user-1");
    let trace = wrapper.trace_answer_with_permissions("answer-1", &user).unwrap();
    assert_eq!(trace.evidence.len(), 1, "authorized evidence must pass");
    let other = EnterpriseUserId::from("user-2");
    assert!(wrapper.trace_answer_at("answer-1", &other, TS).unwrap().evidence.is_empty());
}

#[test]
fn permission_aware_citation_respects_expiry_at_given_time() {
    let mut perm_store = PermissionStore::new();
    perm_store.add_grant(PermissionGrant {
        grant_id: "grant-1".to_string(),
        user_id: EnterpriseUserId::from("user-1"),
        role: EnterpriseRole::User,
        resource_type: ResourceType::KnowledgeBase,
        resource_id: ResourceId::from("artifact-1"),
        actions: vec![PermissionAction::Read],
        granted_at: TS,
        expires_at: Some(TS + 100),
        revoked: false,
    });
    let wrapper = PermissionAwareCitationEvidenceStore::new(cited_artifact_store(), perm_store);
    let user = EnterpriseUserId::from("user-1");
    assert_eq!(wrapper.trace_answer_at("answer-1", &user, TS + 99).unwrap().evidence.len(), 1);
    assert!(wrapper.trace_answer_at("answer-1", &user, TS + 100).unwrap().evidence.is_empty());
}

#[test]
fn permission_aware_citation_allows_non_permission_refs() {
    let mut store = MemoryCitationEvidenceStore::new();
    let evidence = store
        .register_evidence(
            CitationEvidenceRef::source_uri("https://example.com"),
            Some("excerpt".to_string()),
            TS,
        )
        .unwrap();
    store.cite_answer("answer-1", &evidence.id, TS).unwrap();
    let wrapper = PermissionAwareCitationEvidenceStore::new(store, PermissionStore::new());
    let user = EnterpriseUserId::from("user-1");
    let trace = wrapper.trace_answer_with_permissions("answer-1", &user).unwrap();
    assert_eq!(trace.evidence.len(), 1, "source_uri evidence should always pass");
}

#[test]
fn stores_count_what_they_hold() {
    let mut questions = MemoryQuestionLedger::new();
    assert_eq!(questions.len(), 0);
    questions
        .create_question(QuestionLedgerCreateRequest::new("What is AgentOS?", TS))
        .unwrap();
    assert_eq!(questions.len(), 1);

    let mut cache = MemoryAnswerCacheStore::new();
    assert_eq!(cache.len(), 0);
    cache
        .create_package(AnswerCacheCreateRequest::new("answer-1", "An answer", TS))
        .unwrap();
    assert_eq!(cache.len(), 1);

    let mut evidence = MemoryCitationEvidenceStore::new();
    assert_eq!(evidence.evidence_len(), 0);
    evidence
        .register_evidence(
            CitationEvidenceRef::Artifact { artifact_id: ArtifactId::from("artifact-1") },
            Some("excerpt".to_string()),
            TS,
        )
        .unwrap();
    assert_eq!(evidence.evidence_len(), 1);
}
