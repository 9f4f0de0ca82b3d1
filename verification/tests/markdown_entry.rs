use agentos_core::knowledge::{KnowledgeEntryId, KnowledgeSearchQuery};
use agentos_core::markdown_entry::{
    midnight_utc_seconds,
    draft_frontmatter, entry_file_name, entry_ref_from_frontmatter, id_from_relative_path,
    is_skipped_dir_name, markdown_document, markdown_search, Frontmatter, MarkdownFile,
};
use agentos_core::markdown_repo::MarkdownKnowledgeRepository;
use agentos_core::repository::KnowledgeEntryDraft;

const TS: i64 = 1_779_624_000; // 2026-05-24T12:00:00Z
const DAY: i64 = 1_779_580_800; // 2026-05-24T00:00:00Z

fn frontmatter(title: &str, tags: Vec<&str>, last_updated: Option<&str>, source: &str) -> Frontmatter {
    Frontmatter {
        title: title.to_string(),
        summary: String::new(),
        category: String::new(),
        tags: tags.into_iter().map(str::to_string).collect(),
        industry: "general".to_string(),
        source: source.to_string(),
        author: String::new(),
        related: vec![],
        applicable_to: vec![],
        last_updated: last_updated.map(str::to_string),
    }
}

fn yaml_of(fm: &Frontmatter) -> String {
    let mut map = serde_yml::Mapping::new();
    map.insert("title", fm.title.clone().into());
    map.insert("summary", fm.summary.clone().into());
    map.insert("category", fm.category.clone().into());
    map.insert(
        "tags",
        serde_yml::Value::Sequence(fm.tags.iter().map(|t| t.clone().into()).collect()),
    );
    serde_yml::to_string(&map).unwrap()
}

#[test]
fn serialize_draft_frames_frontmatter_and_body() {
    let draft = KnowledgeEntryDraft::new("Test Title", "# Content\n\nBody.", TS)
        .with_tags(vec!["test".to_string()])
        .with_metadata(
            serde_json::from_str(
                r#"{"category": "test-category", "summary": "A test summary", "industry": "general"}"#,
            )
            .unwrap(),
        );
    let id = KnowledgeEntryId::from("test-title");
    let fm = draft_frontmatter(&id, &draft, "test-category");
    assert_eq!(fm.title, "Test Title");
    assert_eq!(fm.category, "test-category");
    assert_eq!(fm.tags, vec!["test"]);
    assert_eq!(fm.summary, "A test summary");
    assert_eq!(fm.last_updated.as_deref(), Some("2026-05-24"));

    let text = markdown_document(Some(&yaml_of(&fm)), &draft.content_markdown);
    let (yaml, body) = MarkdownKnowledgeRepository::split_frontmatter(&text, "test-title.md").unwrap();
    let parsed: serde_yml::Value = serde_yml::from_str(&yaml).unwrap();
    assert_eq!(parsed["title"].as_str(), Some("Test Title"));
    assert_eq!(parsed["category"].as_str(), Some("test-category"));
    assert!(body.contains("# Content"));
}

#[test]
fn draft_frontmatter_defaults_and_category_from_path() {
    let draft = KnowledgeEntryDraft::new("T", "C", TS).with_metadata(
        serde_json::from_str(r#"{"author": "A", "related": ["x", 3, "y"], "applicable_to": "no"}"#).unwrap(),
    );
    let fm = draft_frontmatter(&KnowledgeEntryId::from("frameworks/blue-ocean"), &draft, "");
    assert_eq!(fm.category, "frameworks");
    assert_eq!(fm.industry, "general");
    assert_eq!(fm.author, "A");
    assert_eq!(fm.summary, "");
    assert_eq!(fm.related, vec!["x".to_string(), "y".to_string()]);
    assert!(fm.applicable_to.is_empty());
    assert_eq!(fm.source, "");
    let flat = draft_frontmatter(&KnowledgeEntryId::from("plain"), &draft, "");
    assert_eq!(flat.category, "");
}

#[test]
fn markdown_document_trims_yaml_and_falls_back() {
    assert_eq!(markdown_document(Some("title: a\n\n"), "body"), "---\ntitle: a\n---\n\nbody");
    assert_eq!(
        markdown_document(None, "body"),
        "---\n---\ntitle: unknown\n---\n---\n\nbody"
    );
}

#[test]
fn entry_ref_reads_date_and_source() {
    let id = KnowledgeEntryId::from("a");
    let r = entry_ref_from_frontmatter(id.clone(), &frontmatter("A", vec![], Some("2026-05-24"), "s"), 7);
    assert_eq!(r.created_at, DAY);
    assert_eq!(r.source_uri.as_deref(), Some("s"));
    let r = entry_ref_from_frontmatter(id.clone(), &frontmatter("A", vec![], Some("May 24"), ""), 7);
    assert_eq!(r.created_at, 7);
    assert_eq!(r.source_uri, None);
    let r = entry_ref_from_frontmatter(id, &frontmatter("A", vec![], None, ""), 9);
    assert_eq!(r.created_at, 9);
}

#[test]
fn markdown_search_ranks_title_matches_first() {
    let files = vec![
        MarkdownFile {
            id: KnowledgeEntryId::from("a-body"),
            frontmatter: frontmatter("Other", vec!["x"], None, ""),
            body: "mentions agentos here".to_string(),
        },
        MarkdownFile {
            id: KnowledgeEntryId::from("b-title"),
            frontmatter: frontmatter("AgentOS Guide", vec!["x"], None, ""),
            body: String::new(),
        },
        MarkdownFile {
            id: KnowledgeEntryId::from("c-none"),
            frontmatter: frontmatter("Unrelated", vec!["x"], None, ""),
            body: "nothing".to_string(),
        },
    ];
    let results = markdown_search(&files, &KnowledgeSearchQuery::new("AGENTOS"), TS);
    assert_eq!(results.len(), 2);
    assert_eq!(results[0].entry.id, KnowledgeEntryId::from("b-title"));
    assert_eq!(results[0].score, 2);
    assert_eq!(results[0].snippet, None);
    assert_eq!(results[1].score, 1);
    assert_eq!(results[1].snippet.as_deref(), Some("mentions agentos here"));

    let tagged = markdown_search(
        &files,
        &KnowledgeSearchQuery::new("").with_tags(vec!["x".to_string()]).with_limit(2),
        TS,
    );
    assert_eq!(tagged.len(), 2);
    assert_eq!(tagged[0].entry.id, KnowledgeEntryId::from("a-body"));
    assert_eq!(tagged[0].score, 0);
}

#[test]
fn file_layout_helpers() {
    assert_eq!(id_from_relative_path(""), None);
    assert_eq!(
        id_from_relative_path("a\\b"),
        Some(KnowledgeEntryId::from("a/b"))
    );
    assert!(is_skipped_dir_name(".git"));
    assert!(is_skipped_dir_name("_system"));
    assert!(!is_skipped_dir_name("notes"));
    assert_eq!(entry_file_name(&KnowledgeEntryId::from("a/b")), "a/b.md");
}

#[test]
fn midnight_seconds_follow_the_calendar() {
    assert_eq!(midnight_utc_seconds(1970, 1, 1), 0);
    assert_eq!(midnight_utc_seconds(1969, 12, 31), -86_400);
    assert_eq!(midnight_utc_seconds(2000, 3, 1), 951_868_800);
    assert_eq!(midnight_utc_seconds(2026, 5, 24), DAY);
    assert_eq!(midnight_utc_seconds(1600, 2, 29), -11_670_998_400);
}

#[test]
fn category_from_path_follows_unix_parents() {
    let draft = KnowledgeEntryDraft::new("T", "C", TS);
    let cases = [
        ("a/b/c", "a/b"),
        ("a/b/", "a"),
        ("a//b", "a"),
        ("a/./b", "a"),
        ("a/b/.", "a"),
        ("./a", ""),
        ("/a", "/"),
        ("/", ""),
        ("", ""),
        ("../a", ".."),
        ("a\\b", ""),
    ];
    for (id, expected) in cases {
        let fm = draft_frontmatter(&KnowledgeEntryId::from(id), &draft, "");
        assert_eq!(fm.category, expected, "id {id:?}");
        let parent = std::path::Path::new(id).parent().map(|p| p.to_string_lossy().to_string());
        let from_std = match parent {
            Some(p) if !p.is_empty() && p != "." => p,
            _ => String::new(),
        };
        assert_eq!(fm.category, from_std, "id {id:?} against std");
    }
}
