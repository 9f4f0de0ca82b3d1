use agentos_core::knowledge::{
    KnowledgeEntryId, KnowledgeRepositoryError, KnowledgeSearchQuery, KnowledgeValidationError,
};
use agentos_core::ledger::{ArtifactId, AssetId};
use agentos_core::repository::{KnowledgeEntryDraft, KnowledgeEntryUpdate, MemoryKnowledgeRepository};

const TS: i64 = 1_779_624_000;

fn draft(title: &str, content_markdown: &str, tags: Vec<&str>) -> KnowledgeEntryDraft {
    KnowledgeEntryDraft::new(title, content_markdown, TS)
        .with_source_uri("https://example.com/source")
        .with_source_artifact_id("artifact-source-1")
        .with_source_asset_id("asset-source-1")
        .with_tags(tags.into_iter().map(str::to_string).collect())
        .with_metadata(serde_json::from_str(r#"{ "source": "test" }"#).unwrap())
}

#[test]
fn memory_repository_saves_and_gets_entry() {
    let mut repository = MemoryKnowledgeRepository::new();
    let saved = repository
        .save_draft(draft("AgentOS Notes", "# AgentOS", vec!["agent-os"]))
        .unwrap();

    assert_eq!(saved.id, KnowledgeEntryId::from("knowledge-entry-1"));
    assert_eq!(saved.title, "AgentOS Notes");
    assert_eq!(saved.artifact_id, Some(ArtifactId::from("artifact-source-1")));
    assert_eq!(saved.asset_id, Some(AssetId::from("asset-source-1")));
    assert_eq!(repository.get_entry(&saved.id).unwrap(), Some(saved.clone()));
}

#[test]
fn memory_repository_lists_entries_sorted_by_id() {
    let mut repository = MemoryKnowledgeRepository::new();
    let first = repository.save_draft(draft("First", "first content", vec![])).unwrap();
    let second = repository.save_draft(draft("Second", "second content", vec![])).unwrap();
    assert_eq!(repository.list_entries().unwrap(), vec![first, second]);
}

#[test]
fn memory_repository_searches_by_title() {
    let mut repository = MemoryKnowledgeRepository::new();
    repository
        .save_draft(draft("AgentOS Notes", "foundation content", vec!["agent-os"]))
        .unwrap();
    repository
        .save_draft(draft("Browser Notes", "browser content", vec!["browser"]))
        .unwrap();
    let results = repository.search(&KnowledgeSearchQuery::new("agentos")).unwrap();
    assert_eq!(results.len(), 1);
    assert_eq!(results[0].entry.title, "AgentOS Notes");
    assert_eq!(results[0].score, 1);
}

#[test]
fn memory_repository_searches_by_content() {
    let mut repository = MemoryKnowledgeRepository::new();
    repository
        .save_draft(draft("Architecture", "contains event sourcing notes", vec!["architecture"]))
        .unwrap();
    repository
        .save_draft(draft("Browser", "contains page extraction notes", vec!["browser"]))
        .unwrap();
    let results = repository
        .search(&KnowledgeSearchQuery::new("event sourcing"))
        .unwrap();
    assert_eq!(results.len(), 1);
    assert_eq!(results[0].entry.title, "Architecture");
}

#[test]
fn memory_repository_returns_none_for_missing_entry() {
    let repository = MemoryKnowledgeRepository::new();
    assert_eq!(
        repository.get_entry(&KnowledgeEntryId::from("missing")).unwrap(),
        None
    );
}

#[test]
fn search_filters_by_tags_truncates_and_snips() {
    let mut repository = MemoryKnowledgeRepository::new();
    let long = "x".repeat(200);
    for i in 0..12 {
        repository
            .save_draft(draft(&format!("Entry {i}"), &long, vec!["t"]))
            .unwrap();
    }
    repository.save_draft(draft("Other", "x", vec!["u"])).unwrap();
    let results = repository
        .search(&KnowledgeSearchQuery::new("").with_tags(vec!["t".to_string()]).with_limit(3))
        .unwrap();
    assert_eq!(results.len(), 3);
    assert_eq!(results[0].entry.id, KnowledgeEntryId::from("knowledge-entry-1"));
    assert_eq!(results[1].entry.id, KnowledgeEntryId::from("knowledge-entry-10"));
    assert_eq!(results[2].entry.id, KnowledgeEntryId::from("knowledge-entry-11"));
    assert_eq!(results[0].score, 0);
    assert_eq!(results[0].snippet.as_ref().unwrap().chars().count(), 120);
    assert!(!results[0].permission_required);
    assert_eq!(results[0].confidentiality, None);
    let none = repository
        .search(&KnowledgeSearchQuery::new("").with_tags(vec!["t".to_string(), "u".to_string()]))
        .unwrap();
    assert!(none.is_empty());
}

#[test]
fn update_entry_changes_given_fields_only() {
    let mut repository = MemoryKnowledgeRepository::new();
    let saved = repository.save_draft(draft("Old", "old body", vec!["a"])).unwrap();
    let updated = repository
        .update_entry(
            &saved.id,
            KnowledgeEntryUpdate::new()
                .with_title("New")
                .with_tags(vec!["b".to_string()]),
        )
        .unwrap();
    assert_eq!(updated.title, "New");
    assert_eq!(updated.source_uri, saved.source_uri);
    let hits = repository
        .search(&KnowledgeSearchQuery::new("old body").with_tags(vec!["b".to_string()]))
        .unwrap();
    assert_eq!(hits.len(), 1);
    assert_eq!(
        repository
            .update_entry(&KnowledgeEntryId::from("missing"), KnowledgeEntryUpdate::new())
            .unwrap_err(),
        KnowledgeRepositoryError::NotFound("missing".to_string())
    );
}

#[test]
fn draft_validation_checks_title_then_content() {
    assert_eq!(
        KnowledgeEntryDraft::new(" ", " ", TS).validate_for_write(),
        Err(KnowledgeValidationError::BlankTitle)
    );
    assert_eq!(
        KnowledgeEntryDraft::new("t", "\n", TS).validate_for_write(),
        Err(KnowledgeValidationError::BlankContent)
    );
    assert_eq!(KnowledgeEntryDraft::new("t", "c", TS).validate_for_write(), Ok(()));
    assert_eq!(
        KnowledgeEntryDraft::new("t", "c", TS).metadata,
        serde_json::Value::Object(serde_json::Map::new())
    );
}

#[test]
fn memory_repository_counts_saved_entries() {
    let mut repository = MemoryKnowledgeRepository::new();
    assert_eq!(repository.len(), 0);
    repository.save_draft(draft("One", "# One", vec![])).unwrap();
    repository.save_draft(draft("Two", "# Two", vec![])).unwrap();
    assert_eq!(repository.len(), 2);
}
