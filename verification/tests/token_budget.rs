use agentos_core::token_budget::{
    AggregatedUsage, ContextDedupe, HistoryCompaction, SimpleTokenEstimator, TokenBudgetConfig,
    TokenEstimator, ToolResultDecision, ToolResultGate, ToolSchemaSelector,
};

fn pairs(items: &[(&str, &str)]) -> Vec<(String, String)> {
    items.iter().map(|(a, b)| (a.to_string(), b.to_string())).collect()
}

#[test]
fn simple_estimator_basic() {
    let est = SimpleTokenEstimator;
    assert_eq!(est.estimate("test"), 1);
    assert_eq!(est.estimate("hello world"), 3);
    assert_eq!(est.estimate(""), 0);
}

#[test]
fn simple_estimator_long_text() {
    let est = SimpleTokenEstimator;
    let text = "a".repeat(1000);
    assert_eq!(est.estimate(&text), 250);
}

#[test]
fn simple_estimator_counts_utf8_bytes() {
    let est = SimpleTokenEstimator;
    // five bytes: one ASCII letter and a two-byte letter twice
    assert_eq!(est.estimate("aéé"), 2);
    assert_eq!(est.estimate("abcde"), 2);
}

#[test]
fn usage_aggregation() {
    let mut usage = AggregatedUsage::default();
    usage.record(100, 50);
    usage.record(200, 100);
    assert_eq!(usage.total_input_tokens, 300);
    assert_eq!(usage.total_output_tokens, 150);
    assert_eq!(usage.turns, 2);
    assert_eq!(usage.total(), 450);
}

#[test]
fn default_budget_config() {
    let config = TokenBudgetConfig::default();
    assert_eq!(config.tool_result_inline_limit, 512);
    assert_eq!(config.tool_schema_budget, 4096);
    assert_eq!(config.history_budget, 32768);
    assert_eq!(config.total_context_budget, 100_000);
}

#[test]
fn small_result_inlined() {
    let config = TokenBudgetConfig { tool_result_inline_limit: 100, ..Default::default() };
    let est = SimpleTokenEstimator;
    let gate = ToolResultGate::new(&config, &est);
    match gate.decide("short result") {
        ToolResultDecision::Inline { content } => assert_eq!(content, "short result"),
        _ => panic!("expected inline"),
    }
}

#[test]
fn large_result_truncated() {
    let config = TokenBudgetConfig { tool_result_inline_limit: 10, ..Default::default() };
    let est = SimpleTokenEstimator;
    let gate = ToolResultGate::new(&config, &est);
    let long_result = "x".repeat(200);
    match gate.decide(&long_result) {
        ToolResultDecision::Truncated { content, original_tokens } => {
            assert!(content.len() < long_result.len());
            assert_eq!(original_tokens, 50);
        }
        _ => panic!("expected truncated"),
    }
}

#[test]
fn truncated_result_keeps_prefix_and_notes_token_count() {
    let config = TokenBudgetConfig { tool_result_inline_limit: 2, ..Default::default() };
    let est = SimpleTokenEstimator;
    let gate = ToolResultGate::new(&config, &est);
    match gate.decide("abcdefghijkl") {
        ToolResultDecision::Truncated { content, original_tokens } => {
            assert_eq!(original_tokens, 3);
            assert_eq!(content, "abcdefgh...(truncated, 3 tokens)");
        }
        _ => panic!("expected truncated"),
    }
}

#[test]
fn gate_results_batch() {
    let config = TokenBudgetConfig::default();
    let est = SimpleTokenEstimator;
    let gate = ToolResultGate::new(&config, &est);
    let results = vec![("r1", "short"), ("r2", "a much longer result here")];
    let decisions = gate.gate_results(&results);
    assert_eq!(decisions.len(), 2);
    assert_eq!(decisions[0].0, "r1");
    assert_eq!(decisions[1].0, "r2");
}

#[test]
fn tool_result_decision_artifact_ref() {
    let config = TokenBudgetConfig { tool_result_inline_limit: 10, ..Default::default() };
    let est = SimpleTokenEstimator;
    let gate = ToolResultGate::new(&config, &est);
    let long = "x".repeat(200);
    match gate.decide(&long) {
        ToolResultDecision::Truncated { original_tokens, .. } => {
            assert!(original_tokens > 10);
        }
        _ => panic!("expected truncated for long content"),
    }
}

#[test]
fn selector_within_budget() {
    let config = TokenBudgetConfig { tool_schema_budget: 1000, ..Default::default() };
    let est = SimpleTokenEstimator;
    let selector = ToolSchemaSelector::new(&config, &est);
    let tools = vec![
        ("tool1".into(), "desc1".into(), "{}".into()),
        ("tool2".into(), "desc2".into(), "{}".into()),
    ];
    let (selected, tokens) = selector.select(&tools);
    assert_eq!(selected.len(), 2);
    assert!(tokens <= 1000);
}

#[test]
fn selector_respects_budget() {
    let config = TokenBudgetConfig { tool_schema_budget: 2, ..Default::default() };
    let est = SimpleTokenEstimator;
    let selector = ToolSchemaSelector::new(&config, &est);
    let tools = vec![
        ("tool1".into(), "description1".into(), "{}".into()),
        ("tool2".into(), "description2".into(), "{}".into()),
    ];
    let (selected, _) = selector.select(&tools);
    assert!(selected.len() < 2);
}

#[test]
fn selector_skips_a_tool_that_does_not_fit_and_keeps_later_ones() {
    let config = TokenBudgetConfig { tool_schema_budget: 6, ..Default::default() };
    let est = SimpleTokenEstimator;
    let selector = ToolSchemaSelector::new(&config, &est);
    let tools = vec![
        ("a".into(), "bc".into(), "{}".into()),
        ("big".into(), "x".repeat(40), "{}".into()),
        ("d".into(), "ef".into(), "{}".into()),
    ];
    let (selected, tokens) = selector.select(&tools);
    let names: Vec<&str> = selected.iter().map(|t| t.0.as_str()).collect();
    assert_eq!(names, vec!["a", "d"]);
    assert!(tokens <= 6);
}

#[test]
fn dedupe_removes_duplicates() {
    let est = SimpleTokenEstimator;
    let messages = pairs(&[("user", "hello"), ("user", "hello"), ("assistant", "hi")]);
    let (deduped, report) = ContextDedupe::deduplicate(&messages, &est);
    assert_eq!(deduped.len(), 2);
    assert_eq!(report.messages_before, 3);
    assert_eq!(report.messages_after, 2);
    assert!(report.tokens_saved > 0);
    assert_eq!(report.tokens_saved, 2);
}

#[test]
fn dedupe_no_duplicates() {
    let est = SimpleTokenEstimator;
    let messages = pairs(&[("user", "hello"), ("assistant", "hi")]);
    let (deduped, report) = ContextDedupe::deduplicate(&messages, &est);
    assert_eq!(deduped.len(), 2);
    assert_eq!(report.tokens_saved, 0);
}

#[test]
fn dedupe_is_idempotent_and_keeps_non_adjacent_repeats() {
    let est = SimpleTokenEstimator;
    let messages = pairs(&[
        ("user", "a"),
        ("assistant", "a"),
        ("user", "b"),
        ("user", "a"),
    ]);
    let (once, _) = ContextDedupe::deduplicate(&messages, &est);
    assert_eq!(once, messages);
    let (twice, report) = ContextDedupe::deduplicate(&once, &est);
    assert_eq!(twice, once);
    assert_eq!(report.tokens_saved, 0);
}

#[test]
fn compaction_within_budget() {
    let config = TokenBudgetConfig { history_budget: 10000, ..Default::default() };
    let est = SimpleTokenEstimator;
    let compaction = HistoryCompaction::new(&config, &est);
    let messages = pairs(&[("user", "hello"), ("assistant", "hi")]);
    let result = compaction.compact(&messages);
    assert_eq!(result.messages.len(), 2);
    assert_eq!(result.removed_count, 0);
}

#[test]
fn compaction_removes_oldest() {
    let config = TokenBudgetConfig { history_budget: 10, ..Default::default() };
    let est = SimpleTokenEstimator;
    let compaction = HistoryCompaction::new(&config, &est);
    let messages = pairs(&[
        ("user", "first message from user"),
        ("assistant", "first response from assistant"),
        ("user", "second message"),
    ]);
    let result = compaction.compact(&messages);
    assert!(result.removed_count > 0);
    assert!(result.tokens_removed > 0);
    assert!(!result.messages.is_empty());
    assert_eq!(result.removed_count, 2);
    assert_eq!(result.tokens_removed, 14);
    assert_eq!(result.messages, pairs(&[("user", "second message")]));
}

#[test]
fn compacted_history_preserves_order() {
    let config = TokenBudgetConfig { history_budget: 10000, ..Default::default() };
    let est = SimpleTokenEstimator;
    let compaction = HistoryCompaction::new(&config, &est);
    let messages = pairs(&[("user", "a"), ("assistant", "b"), ("user", "c"), ("assistant", "d")]);
    let result = compaction.compact(&messages);
    assert_eq!(result.messages[0].1, "a");
    assert_eq!(result.messages[3].1, "d");
}

#[test]
fn dedupe_keeps_same_text_from_another_role() {
    let est = SimpleTokenEstimator;
    let messages = pairs(&[("user", "hi"), ("assistant", "hi"), ("assistant", "hi")]);
    let (deduped, report) = ContextDedupe::deduplicate(&messages, &est);
    assert_eq!(deduped, pairs(&[("user", "hi"), ("assistant", "hi")]));
    assert_eq!(report.messages_after, 2);
    assert_eq!(report.tokens_saved, 1);
}
