use agentos_core::knowledge::{
    query_terms, validate_draft_fields, AnswerCacheError, AnswerCachePackageVersion,
    AnswerFreshnessPolicy, KnowledgeActor, KnowledgeAssetVisibility, KnowledgeBindingTarget,
    KnowledgeEmbeddingBackendKind, KnowledgeEngineAccessMode, KnowledgeEntryId,
    KnowledgeFullTextBackendKind, KnowledgeFullTextQuery, KnowledgeHybridRerankMode,
    KnowledgeSearchQuery, KnowledgeValidationError, NoopHybridReranker, ReverseHybridReranker,
    KNOWLEDGE_SEARCH_ACTION_KIND,
};
use agentos_core::markdown_repo::{MarkdownKnowledgeRepository, MarkdownRepoError};

#[test]
fn slugify_basic() {
    assert_eq!(MarkdownKnowledgeRepository::slugify("Blue Ocean Strategy"), "blue-ocean-strategy");
}

#[test]
fn slugify_chinese() {
    let slug = MarkdownKnowledgeRepository::slugify("蓝海战略");
    assert!(!slug.is_empty());
    assert_eq!(slug, "蓝海战略");
}

#[test]
fn slugify_special_chars() {
    assert_eq!(MarkdownKnowledgeRepository::slugify("Hello, World! @#$"), "hello-world");
}

#[test]
fn slugify_empty() {
    assert_eq!(MarkdownKnowledgeRepository::slugify(""), "untitled");
    assert_eq!(MarkdownKnowledgeRepository::slugify("@#$%"), "untitled");
}

#[test]
fn slugify_preserves_dashes() {
    assert_eq!(MarkdownKnowledgeRepository::slugify("context-dedupe-gate"), "context-dedupe-gate");
}

#[test]
fn slugify_collapses_and_trims_dashes() {
    assert_eq!(MarkdownKnowledgeRepository::slugify("--A  --  B--"), "a-b");
    assert_eq!(MarkdownKnowledgeRepository::slugify("Ünïcode Title"), "ünïcode-title");
}

#[test]
fn validate_id_accepts_relative() {
    assert!(MarkdownKnowledgeRepository::validate_id(&KnowledgeEntryId::from("foo/bar")).is_ok());
}

#[test]
fn validate_id_rejects_traversal() {
    assert!(
        MarkdownKnowledgeRepository::validate_id(&KnowledgeEntryId::from("../etc/passwd")).is_err()
    );
    assert!(
        MarkdownKnowledgeRepository::validate_id(&KnowledgeEntryId::from("foo/../../../etc"))
            .is_err()
    );
}

#[test]
fn validate_id_reports_which_rule_failed() {
    assert_eq!(
        MarkdownKnowledgeRepository::validate_id(&KnowledgeEntryId::from("/etc/passwd")),
        Err(MarkdownRepoError::InvalidId("id must be relative: /etc/passwd".to_string()))
    );
    assert_eq!(
        MarkdownKnowledgeRepository::validate_id(&KnowledgeEntryId::from("a/..")),
        Err(MarkdownRepoError::InvalidId("id must not contain '..': a/..".to_string()))
    );
    assert!(MarkdownKnowledgeRepository::validate_id(&KnowledgeEntryId::from("a/..b/c")).is_ok());
}

#[test]
fn text_matches_case_insensitive() {
    assert!(MarkdownKnowledgeRepository::text_matches("agent", "AgentOS Architecture", "some body"));
    assert!(MarkdownKnowledgeRepository::text_matches("BODY", "Title", "some body content"));
    assert!(!MarkdownKnowledgeRepository::text_matches("missing", "Title", "Body"));
}

#[test]
fn tags_match_all_required() {
    assert!(MarkdownKnowledgeRepository::tags_match(
        &["a".to_string(), "b".to_string()],
        &["a".to_string(), "b".to_string(), "c".to_string()]
    ));
    assert!(!MarkdownKnowledgeRepository::tags_match(
        &["a".to_string(), "missing".to_string()],
        &["a".to_string(), "b".to_string()]
    ));
    assert!(MarkdownKnowledgeRepository::tags_match(&[], &[]));
}

#[test]
fn markdown_repository_keeps_its_root() {
    let repo = MarkdownKnowledgeRepository::new(std::path::PathBuf::from("/tmp/knowledge"));
    assert_eq!(repo.root_dir(), &std::path::PathBuf::from("/tmp/knowledge"));
}

#[test]
fn knowledge_fulltext_backend_kind_defaults_to_deterministic_in_process() {
    assert_eq!(
        KnowledgeFullTextBackendKind::default(),
        KnowledgeFullTextBackendKind::DeterministicInProcess
    );
}

#[test]
fn knowledge_embedding_backend_kind_defaults_to_deterministic_in_process() {
    assert_eq!(
        KnowledgeEmbeddingBackendKind::default(),
        KnowledgeEmbeddingBackendKind::DeterministicInProcess
    );
}

#[test]
fn knowledge_fulltext_query_defaults_are_stable() {
    let query = KnowledgeFullTextQuery::new("agent memory");
    assert_eq!(query.text, "agent memory");
    assert_eq!(query.limit, 10);
    assert!(query.tags.is_empty());
    assert!(query.frontmatter_filters.is_empty());
}

#[test]
fn knowledge_query_builders_keep_other_fields() {
    let query = KnowledgeFullTextQuery::new("q")
        .with_tags(vec!["t".to_string()])
        .with_frontmatter_filter("category", "ops")
        .with_limit(3);
    assert_eq!(query.text, "q");
    assert_eq!(query.tags, vec!["t".to_string()]);
    assert_eq!(query.frontmatter_filters, vec![("category".to_string(), "ops".to_string())]);
    assert_eq!(query.limit, 3);
    let search = KnowledgeSearchQuery::new("x").with_limit(5).with_tags(vec!["a".to_string()]);
    assert_eq!(search.limit, 5);
    assert_eq!(search.tags, vec!["a".to_string()]);
}

#[test]
fn answer_cache_package_version_rejects_zero() {
    assert_eq!(AnswerCachePackageVersion::new(0).unwrap_err(), AnswerCacheError::InvalidVersion);
    assert_eq!(AnswerCachePackageVersion::new(1).unwrap().value(), 1);
}

#[test]
fn direct_filesystem_access_is_explicitly_rejected_boundary() {
    assert!(KnowledgeEngineAccessMode::EngineApi.is_allowed());
    assert!(KnowledgeEngineAccessMode::LlmControlledPacket.is_allowed());
    assert!(!KnowledgeEngineAccessMode::DirectFilesystem.is_allowed());
}

#[test]
fn query_terms_are_lowercased_words() {
    assert_eq!(query_terms("  Agent  MEMORY\tlayer "), vec!["agent", "memory", "layer"]);
    assert!(query_terms("   ").is_empty());
}

#[test]
fn draft_fields_must_not_be_blank() {
    assert_eq!(validate_draft_fields("  ", "body"), Err(KnowledgeValidationError::BlankTitle));
    assert_eq!(validate_draft_fields("Title", "\n\t"), Err(KnowledgeValidationError::BlankContent));
    assert_eq!(validate_draft_fields("Title", "body"), Ok(()));
}

#[test]
fn rerankers_keep_or_reverse_order() {
    let mut items = vec![1, 2, 3];
    NoopHybridReranker.rerank_items(&mut items);
    assert_eq!(items, vec![1, 2, 3]);
    ReverseHybridReranker.rerank_items(&mut items);
    assert_eq!(items, vec![3, 2, 1]);
    assert_eq!(KnowledgeHybridRerankMode::default(), KnowledgeHybridRerankMode::Disabled);
}

#[test]
fn knowledge_small_builders() {
    assert_eq!(KNOWLEDGE_SEARCH_ACTION_KIND, "knowledge.search");
    assert_eq!(AnswerFreshnessPolicy::never_expires().expires_after_days, None);
    assert_eq!(AnswerFreshnessPolicy::expires_after_days(7).expires_after_days, Some(7));
    let engine = KnowledgeActor::engine("user-1");
    assert_eq!(engine.actor_type, "engine");
    assert_eq!(engine.actor_id, "knowledge-engine");
    assert_eq!(engine.delegated_by.as_deref(), Some("user-1"));
    let visibility = KnowledgeAssetVisibility::default();
    assert_eq!(visibility.llm_access, "metadata_and_derivatives_only");
    assert!(!visibility.raw_blob_access);
    assert!(matches!(
        KnowledgeBindingTarget::object_attribute("obj-1", "color"),
        KnowledgeBindingTarget::ObjectAttribute { attribute_key, .. } if attribute_key == "color"
    ));
}

#[test]
fn parse_content_valid() {
    let content = r#"---
title: "Test Entry"
summary: "A test summary"
tags: [test, example]
source: "https://example.com"
last_updated: "2026-05-24"
---

# Test Entry

Body content here."#;

    let (yaml, body) = MarkdownKnowledgeRepository::split_frontmatter(content, "test.md").unwrap();
    let fm: serde_yml::Value = serde_yml::from_str(&yaml).unwrap();
    assert_eq!(fm["title"].as_str(), Some("Test Entry"));
    assert_eq!(fm["summary"].as_str(), Some("A test summary"));
    let tags: Vec<&str> = fm["tags"].as_sequence().unwrap().iter().map(|t| t.as_str().unwrap()).collect();
    assert_eq!(tags, vec!["test", "example"]);
    assert_eq!(fm["source"].as_str(), Some("https://example.com"));
    assert_eq!(fm["last_updated"].as_str(), Some("2026-05-24"));
    assert!(body.contains("Body content here."));
    assert_eq!(body, "# Test Entry\n\nBody content here.");
}

#[test]
fn parse_content_missing_closing_delimiter() {
    let content = "---\ntitle: \"Test\"\nno closing delimiter";
    let result = MarkdownKnowledgeRepository::split_frontmatter(content, "test.md");
    assert_eq!(
        result,
        Err(MarkdownRepoError::FrontmatterParse {
            path: "test.md".to_string(),
            reason: "missing closing '---' delimiter for YAML frontmatter".to_string(),
        })
    );
}

#[test]
fn parse_content_no_frontmatter() {
    let content = "# Just a heading\n\nNo frontmatter here.";
    let result = MarkdownKnowledgeRepository::split_frontmatter(content, "test.md");
    assert_eq!(
        result,
        Err(MarkdownRepoError::FrontmatterParse {
            path: "test.md".to_string(),
            reason: "file does not start with YAML frontmatter delimiter '---'".to_string(),
        })
    );
}

#[test]
fn split_frontmatter_skips_leading_whitespace() {
    let (yaml, body) =
        MarkdownKnowledgeRepository::split_frontmatter("  \n---a: 1\n---body", "x.md").unwrap();
    assert_eq!(yaml, "a: 1");
    assert_eq!(body, "body");
}
