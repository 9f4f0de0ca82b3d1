use agentos_core::knowledge::{
    KnowledgeEntryId, KnowledgeGetEntryActionInput, KnowledgeRepositoryError,
    KnowledgeSearchActionInput, KnowledgeSearchQuery, KnowledgeValidationError,
};
use agentos_core::knowledge_action::{
    KnowledgeActionError, KnowledgeActionExecutor, KnowledgeActionInput, KnowledgeActionKind,
    KnowledgeActionOutput, KnowledgeCreateDraftActionInput, KnowledgeSaveEntryActionInput,
    KnowledgeUpdateEntryActionInput,
};
use agentos_core::repository::{KnowledgeEntryDraft, KnowledgeEntryUpdate, MemoryKnowledgeRepository};

const TS: i64 = 1_779_624_000;

fn create_input(title: &str, content: &str) -> KnowledgeCreateDraftActionInput {
    KnowledgeCreateDraftActionInput {
        title: title.to_string(),
        content_markdown: content.to_string(),
        source_uri: Some("https://example.com/source".to_string()),
        source_artifact_id: None,
        source_asset_id: None,
        tags: vec!["agent-os".to_string()],
        metadata: serde_json::from_str(r#"{"source":"test"}"#).unwrap(),
        created_at: TS,
    }
}

#[test]
fn action_kinds_are_recognized() {
    assert_eq!(KnowledgeActionKind::of("knowledge.search"), Some(KnowledgeActionKind::Search));
    assert_eq!(KnowledgeActionKind::of("knowledge.get_entry"), Some(KnowledgeActionKind::GetEntry));
    assert_eq!(
        KnowledgeActionKind::of("knowledge.create_draft"),
        Some(KnowledgeActionKind::CreateDraft)
    );
    assert_eq!(KnowledgeActionKind::of("knowledge.save_entry"), Some(KnowledgeActionKind::SaveEntry));
    assert_eq!(
        KnowledgeActionKind::of("knowledge.update_entry"),
        Some(KnowledgeActionKind::UpdateEntry)
    );
    assert_eq!(KnowledgeActionKind::of("mail.send"), None);
}

#[test]
fn create_draft_validates_and_returns_draft() {
    let mut executor = KnowledgeActionExecutor::new(MemoryKnowledgeRepository::new());
    let out = executor
        .execute(KnowledgeActionInput::CreateDraft(create_input("Title", "Body")))
        .unwrap();
    match out {
        KnowledgeActionOutput::Draft(d) => {
            assert_eq!(d.title, "Title");
            assert_eq!(d.tags, vec!["agent-os".to_string()]);
        }
        other => panic!("unexpected {:?}", other),
    }
    assert_eq!(
        executor
            .execute(KnowledgeActionInput::CreateDraft(create_input("  ", "Body")))
            .unwrap_err(),
        KnowledgeActionError::InvalidInput("knowledge draft title cannot be blank".to_string())
    );
    assert_eq!(
        create_input("t", " ").into_draft().unwrap_err(),
        KnowledgeValidationError::BlankContent
    );
}

#[test]
fn save_then_search_get_and_update() {
    let mut executor = KnowledgeActionExecutor::new(MemoryKnowledgeRepository::new());
    let saved = match executor
        .execute(KnowledgeActionInput::SaveEntry(KnowledgeSaveEntryActionInput {
            draft: KnowledgeEntryDraft::new("AgentOS Notes", "# AgentOS", TS),
        }))
        .unwrap()
    {
        KnowledgeActionOutput::Saved(e) => e,
        other => panic!("unexpected {:?}", other),
    };
    assert_eq!(saved.id, KnowledgeEntryId::from("knowledge-entry-1"));

    let found = executor
        .execute(KnowledgeActionInput::Search(KnowledgeSearchActionInput {
            query: KnowledgeSearchQuery::new("agentos"),
        }))
        .unwrap();
    match found {
        KnowledgeActionOutput::Results(r) => assert_eq!(r.len(), 1),
        other => panic!("unexpected {:?}", other),
    }

    let got = executor
        .execute(KnowledgeActionInput::GetEntry(KnowledgeGetEntryActionInput { id: saved.id.clone() }))
        .unwrap();
    assert_eq!(got, KnowledgeActionOutput::Entry(Some(saved.clone())));

    let updated = executor
        .execute(KnowledgeActionInput::UpdateEntry(KnowledgeUpdateEntryActionInput {
            id: saved.id.clone(),
            update: KnowledgeEntryUpdate::new().with_title("Renamed"),
        }))
        .unwrap();
    match updated {
        KnowledgeActionOutput::Updated(e) => assert_eq!(e.title, "Renamed"),
        other => panic!("unexpected {:?}", other),
    }

    assert_eq!(
        executor
            .execute(KnowledgeActionInput::UpdateEntry(KnowledgeUpdateEntryActionInput {
                id: KnowledgeEntryId::from("missing"),
                update: KnowledgeEntryUpdate::new(),
            }))
            .unwrap_err(),
        KnowledgeActionError::ExecutionFailed("entry not found: missing".to_string())
    );
}

#[test]
fn save_refuses_blank_content() {
    let mut executor = KnowledgeActionExecutor::new(MemoryKnowledgeRepository::new());
    assert_eq!(
        executor
            .execute(KnowledgeActionInput::SaveEntry(KnowledgeSaveEntryActionInput {
                draft: KnowledgeEntryDraft::new("Title", "\t", TS),
            }))
            .unwrap_err(),
        KnowledgeActionError::InvalidInput("knowledge draft content cannot be blank".to_string())
    );
    assert_eq!(executor.repository.list_entries().unwrap(), vec![]);
}

#[test]
fn knowledge_repository_error_messages_are_displayed() {
    assert_eq!(
        KnowledgeRepositoryError::FrontmatterParse {
            path: "a.md".to_string(),
            reason: "bad".to_string()
        }
        .to_string(),
        "frontmatter parse error in a.md: bad"
    );
    assert_eq!(
        KnowledgeRepositoryError::LockPoisoned.to_string(),
        "knowledge repository lock poisoned"
    );
    assert_eq!(
        KnowledgeRepositoryError::InvalidId("x".to_string()).to_string(),
        "invalid entry id: x"
    );
}
