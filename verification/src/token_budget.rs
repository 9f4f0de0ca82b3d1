//! Token budgeting: estimating token counts, gating large tool results,
//! selecting tool schemas within a budget, de-duplicating context and
//! compacting history.
use crate::text::{byte_len, decimal, push_decimal, push_str, str_len};
use vstd::prelude::*;
use vstd::utf8::{decode_utf8, encode_utf8, encode_utf8_decode_utf8, is_char_boundary};

verus! {

/// Estimates the token count of a text.
pub trait TokenEstimator {
    /// The estimate for `text`.
    spec fn tokens_of(&self, text: Seq<char>) -> u32;

    /// Estimates the token count of `text`.
    fn estimate(&self, text: &str) -> (r: u32)
        ensures
            r == self.tokens_of(text@),
    ;
}

/// Byte-based estimator: one token per four bytes, rounded up.
#[derive(Debug, Clone, Copy)]
pub struct SimpleTokenEstimator;

/// The simple estimate: the byte length taken as a `u32`, divided by four
/// and rounded up.
pub open spec fn simple_estimate(text: Seq<char>) -> u32 {
    let n = (str_len(text) as u32) as int;
    ((n + 3) / 4) as u32
}

impl TokenEstimator for SimpleTokenEstimator {
    open spec fn tokens_of(&self, text: Seq<char>) -> u32 {
        simple_estimate(text)
    }

    fn estimate(&self, text: &str) -> (r: u32) {
        let n = text.len() as u32;
        let q = n / 4;
        if n % 4 == 0 {
            q
        } else {
            q + 1
        }
    }
}

/// Configuration for token budget gates.
#[derive(Debug, Clone)]
pub struct TokenBudgetConfig {
    /// Max tokens for a single tool result before gating.
    pub tool_result_inline_limit: u32,
    /// Max total tokens for tool schemas.
    pub tool_schema_budget: u32,
    /// Max tokens for conversation history.
    pub history_budget: u32,
    /// Max total context tokens (history + tool results + system).
    pub total_context_budget: u32,
}

impl Default for TokenBudgetConfig {
    fn default() -> (r: Self)
        ensures
            r.tool_result_inline_limit == 512,
            r.tool_schema_budget == 4096,
            r.history_budget == 32768,
            r.total_context_budget == 100_000,
    {
        TokenBudgetConfig {
            tool_result_inline_limit: 512,
            tool_schema_budget: 4096,
            history_budget: 32768,
            total_context_budget: 100_000,
        }
    }
}

/// Token usage aggregated across turns.
#[derive(Debug, Clone)]
pub struct AggregatedUsage {
    pub total_input_tokens: u64,
    pub total_output_tokens: u64,
    pub turns: u32,
}

impl Default for AggregatedUsage {
    fn default() -> (r: Self)
        ensures
            r.total_input_tokens == 0,
            r.total_output_tokens == 0,
            r.turns == 0,
    {
        AggregatedUsage { total_input_tokens: 0, total_output_tokens: 0, turns: 0 }
    }
}

impl AggregatedUsage {
    /// Records one turn's input and output tokens.
    pub fn record(&mut self, input: u64, output: u64)
        requires
            old(self).total_input_tokens + input <= u64::MAX,
            old(self).total_output_tokens + output <= u64::MAX,
            old(self).turns < u32::MAX,
        ensures
            final(self).total_input_tokens == old(self).total_input_tokens + input,
            final(self).total_output_tokens == old(self).total_output_tokens + output,
            final(self).turns == old(self).turns + 1,
    {
        self.total_input_tokens = self.total_input_tokens + input;
        self.total_output_tokens = self.total_output_tokens + output;
        self.turns = self.turns + 1;
    }

    /// Input plus output tokens.
    pub fn total(&self) -> (r: u64)
        requires
            self.total_input_tokens + self.total_output_tokens <= u64::MAX,
        ensures
            r == self.total_input_tokens + self.total_output_tokens,
    {
        self.total_input_tokens + self.total_output_tokens
    }
}

/// Decision for how to handle a tool result in the next turn.
#[derive(Debug, Clone)]
pub enum ToolResultDecision {
    /// Include the full result inline.
    Inline { content: String },
    /// Truncate to fit within budget.
    Truncated { content: String, original_tokens: u32 },
    /// Use an artifact reference instead of inline content.
    ArtifactRef { ref_id: String, summary: String },
}

/// The text kept for a result over the inline limit: the first `limit_bytes`
/// bytes followed by a note with the token count, or the whole result when
/// it is no longer than `limit_bytes` bytes.
pub open spec fn truncated_text(result: Seq<char>, limit_bytes: int, tokens: u32) -> Seq<char> {
    if str_len(result) > limit_bytes {
        decode_utf8(encode_utf8(result).subrange(0, limit_bytes)) + "...(truncated, "@ + decimal(
            tokens as nat,
        ) + " tokens)"@
    } else {
        result
    }
}

/// Gates tool results based on token budget.
pub struct ToolResultGate<'a, E: TokenEstimator> {
    config: &'a TokenBudgetConfig,
    estimator: &'a E,
}

impl<'a, E: TokenEstimator> ToolResultGate<'a, E> {
    /// A gate over a configuration and an estimator.
    pub fn new(config: &'a TokenBudgetConfig, estimator: &'a E) -> (r: Self)
        ensures
            r.config() == config,
            r.estimator() == estimator,
    {
        ToolResultGate { config, estimator }
    }

    /// Budget configuration held by `self`.
    pub closed spec fn config(&self) -> &'a TokenBudgetConfig {
        self.config
    }

    /// Token estimator held by `self`.
    pub closed spec fn estimator(&self) -> &'a E {
        self.estimator
    }

    /// Whether `decide` can handle `result` without overflow or an invalid
    /// slice: a result over the limit needs the limit in bytes to fit a
    /// `u32` and to fall on a character boundary when the result is longer.
    pub open spec fn can_decide(&self, result: Seq<char>) -> bool {
        let limit = self.config().tool_result_inline_limit;
        self.estimator().tokens_of(result) > limit ==> {
            &&& limit * 4 <= u32::MAX
            &&& str_len(result) > limit * 4 ==> is_char_boundary(encode_utf8(result), limit * 4)
        }
    }

    /// Whether `d` is the decision for `result`: inline when its estimate is
    /// within the limit, truncated otherwise.
    pub open spec fn is_decision(&self, result: Seq<char>, d: ToolResultDecision) -> bool {
        let limit = self.config().tool_result_inline_limit;
        let tokens = self.estimator().tokens_of(result);
        if tokens <= limit {
            d matches ToolResultDecision::Inline { content } && content@ == result
        } else {
            d matches ToolResultDecision::Truncated { content, original_tokens }
                && original_tokens == tokens && content@ == truncated_text(
                result,
                limit * 4,
                tokens,
            )
        }
    }

    /// Decides how to include a tool result.
    pub fn decide(&self, result: &str) -> (r: ToolResultDecision)
        requires
            self.can_decide(result@),
        ensures
            self.is_decision(result@, r),
    {
        let tokens = self.estimator.estimate(result);
        let limit = self.config.tool_result_inline_limit;
        if tokens <= limit {
            ToolResultDecision::Inline { content: result.to_owned() }
        } else {
            let limit_bytes = (limit * 4) as usize;
            let truncated = if result.len() > limit_bytes {
                let (head, _) = result.split_at(limit_bytes);
                proof {
                    assert(limit_bytes as int == limit * 4);
                    encode_utf8_decode_utf8(head@);
                    assert(head@ == decode_utf8(encode_utf8(result@).subrange(0, limit_bytes as int)));
                }
                let mut s = head.to_owned();
                push_str(&mut s, "...(truncated, ");
                push_decimal(&mut s, tokens as u64);
                push_str(&mut s, " tokens)");
                assert(s@ == truncated_text(result@, limit * 4, tokens));
                s
            } else {
                result.to_owned()
            };
            ToolResultDecision::Truncated { content: truncated, original_tokens: tokens }
        }
    }

    /// Gates a list of `(id, content)` tool results, in order.
    pub fn gate_results(&self, results: &[(&str, &str)]) -> (r: Vec<(String, ToolResultDecision)>)
        requires
            forall|i: int| 0 <= i < results@.len() ==> self.can_decide((#[trigger] results@[i]).1@),
        ensures
            r@.len() == results@.len(),
            forall|i: int|
                0 <= i < results@.len() ==> (#[trigger] r@[i]).0@ == results@[i].0@
                    && self.is_decision(results@[i].1@, r@[i].1),
    {
        let mut out: Vec<(String, ToolResultDecision)> = Vec::new();
        let mut i: usize = 0;
        while i < results.len()
            invariant
                i <= results@.len(),
                out@.len() == i,
                forall|j: int| 0 <= j < results@.len() ==> self.can_decide((#[trigger] results@[j]).1@),
                forall|j: int|
                    0 <= j < i ==> (#[trigger] out@[j]).0@ == results@[j].0@ && self.is_decision(
                        results@[j].1@,
                        out@[j].1,
                    ),
            decreases results@.len() - i,
        {
            let (id, content) = results[i];
            let d = self.decide(content);
            out.push((id.to_owned(), d));
            i = i + 1;
        }
        out
    }
}

/// The text whose estimate counts against the schema budget:
/// name, description and schema joined by single spaces.
pub open spec fn schema_text(tool: (String, String, String)) -> Seq<char> {
    tool.0@ + seq![' '] + tool.1@ + seq![' '] + tool.2@
}

/// Views of a tool triple.
pub open spec fn tool_view(tool: (String, String, String)) -> (Seq<char>, Seq<char>, Seq<char>) {
    (tool.0@, tool.1@, tool.2@)
}

/// Selects which tool schemas to include based on budget.
pub struct ToolSchemaSelector<'a, E: TokenEstimator> {
    config: &'a TokenBudgetConfig,
    estimator: &'a E,
}

impl<'a, E: TokenEstimator> ToolSchemaSelector<'a, E> {
    /// A selector over a configuration and an estimator.
    pub fn new(config: &'a TokenBudgetConfig, estimator: &'a E) -> (r: Self)
        ensures
            r.config() == config,
            r.estimator() == estimator,
    {
        ToolSchemaSelector { config, estimator }
    }

    /// The configuration the selector reads.
    pub closed spec fn config(&self) -> &'a TokenBudgetConfig {
        self.config
    }

    /// The estimator the selector uses.
    pub closed spec fn estimator(&self) -> &'a E {
        self.estimator
    }

    /// The greedy selection over the first `n` tools: the indices taken, in
    /// order, and their total estimate. A tool is taken when it still fits
    /// in the remaining budget.
    pub open spec fn selection(&self, tools: Seq<(String, String, String)>, n: nat) -> (Seq<int>, int)
        decreases n,
    {
        if n == 0 {
            (Seq::empty(), 0)
        } else {
            let (taken, total) = self.selection(tools, (n - 1) as nat);
            let tokens = self.estimator().tokens_of(schema_text(tools[n - 1]));
            if total + tokens <= self.config().tool_schema_budget {
                (taken.push(n - 1), total + tokens)
            } else {
                (taken, total)
            }
        }
    }

    proof fn lemma_selection_bounds(&self, tools: Seq<(String, String, String)>, n: nat)
        requires
            n <= tools.len(),
        ensures
            0 <= self.selection(tools, n).1 <= self.config().tool_schema_budget,
            forall|k: int|
                0 <= k < self.selection(tools, n).0.len() ==> 0 <= #[trigger] self.selection(
                    tools,
                    n,
                ).0[k] < n,
        decreases n,
    {
        if n > 0 {
            self.lemma_selection_bounds(tools, (n - 1) as nat);
        }
    }

    /// Selects the tools that fit within the schema budget, in order, and
    /// returns them with the total estimate they use.
    pub fn select(&self, tools: &[(String, String, String)]) -> (r: (
        Vec<(String, String, String)>,
        u32,
    ))
        ensures
            r.0@.len() == self.selection(tools@, tools@.len()).0.len(),
            forall|k: int|
                0 <= k < r.0@.len() ==> tool_view(#[trigger] r.0@[k]) == tool_view(
                    tools@[self.selection(tools@, tools@.len()).0[k]],
                ),
            r.1 == self.selection(tools@, tools@.len()).1,
            r.1 <= self.config().tool_schema_budget,
    {
        let mut selected: Vec<(String, String, String)> = Vec::new();
        let mut total: u32 = 0;
        let budget = self.config.tool_schema_budget;
        let mut i: usize = 0;
        while i < tools.len()
            invariant
                i <= tools@.len(),
                budget == self.config().tool_schema_budget,
                total == self.selection(tools@, i as nat).1,
                selected@.len() == self.selection(tools@, i as nat).0.len(),
                forall|k: int|
                    0 <= k < selected@.len() ==> tool_view(#[trigger] selected@[k]) == tool_view(
                        tools@[self.selection(tools@, i as nat).0[k]],
                    ),
            decreases tools@.len() - i,
        {
            proof {
                self.lemma_selection_bounds(tools@, i as nat);
            }
            let tool = &tools[i];
            let mut text = tool.0.clone();
            push_str(&mut text, " ");
            push_str(&mut text, tool.1.as_str());
            push_str(&mut text, " ");
            push_str(&mut text, tool.2.as_str());
            proof {
                reveal_strlit(" ");
                assert(text@ == schema_text(tools@[i as int]));
            }
            let tokens = self.estimator.estimate(text.as_str());
            if (total as u64) + (tokens as u64) <= (budget as u64) {
                selected.push((tool.0.clone(), tool.1.clone(), tool.2.clone()));
                total = total + tokens;
            }
            proof {
                let ghost prev = self.selection(tools@, i as nat).0;
                assert forall|k: int| 0 <= k < selected@.len() implies tool_view(
                    #[trigger] selected@[k],
                ) == tool_view(tools@[self.selection(tools@, (i + 1) as nat).0[k]]) by {
                    if k < prev.len() {
                        assert(self.selection(tools@, (i + 1) as nat).0[k] == prev[k]);
                    }
                }
            }
            i = i + 1;
        }
        proof {
            self.lemma_selection_bounds(tools@, tools@.len());
        }
        (selected, total)
    }
}

/// Views of a `(role, text)` message pair.
pub open spec fn pair_view(p: (String, String)) -> (Seq<char>, Seq<char>) {
    (p.0@, p.1@)
}

/// Views of a sequence of message pairs.
pub open spec fn pairs_view(s: Seq<(String, String)>) -> Seq<(Seq<char>, Seq<char>)> {
    s.map_values(|p: (String, String)| pair_view(p))
}

/// Drops each message identical (in role and text) to the last message
/// kept before it.
pub open spec fn dedup_view(v: Seq<(Seq<char>, Seq<char>)>) -> Seq<(Seq<char>, Seq<char>)>
    decreases v.len(),
{
    if v.len() == 0 {
        v
    } else {
        let kept = dedup_view(v.drop_last());
        if kept.len() > 0 && kept.last() == v.last() {
            kept
        } else {
            kept.push(v.last())
        }
    }
}

/// Estimated tokens of the messages that `dedup_view` drops.
pub open spec fn dedup_saved<E: TokenEstimator>(est: &E, v: Seq<(Seq<char>, Seq<char>)>) -> int
    decreases v.len(),
{
    if v.len() == 0 {
        0
    } else {
        let kept = dedup_view(v.drop_last());
        dedup_saved(est, v.drop_last()) + if kept.len() > 0 && kept.last() == v.last() {
            est.tokens_of(v.last().1) as int
        } else {
            0
        }
    }
}

/// No two adjacent messages are identical.
pub open spec fn no_adjacent_duplicates(v: Seq<(Seq<char>, Seq<char>)>) -> bool {
    forall|i: int| 0 < i < v.len() ==> #[trigger] v[i] != v[i - 1]
}

/// Report from context deduplication.
#[derive(Debug, Clone)]
pub struct ContextDedupeReport {
    pub messages_before: usize,
    pub messages_after: usize,
    pub tokens_saved: u32,
}

/// Deduplicates context messages.
#[derive(Debug, Clone, Copy)]
pub struct ContextDedupe;

proof fn lemma_dedup_saved_monotone<E: TokenEstimator>(
    est: &E,
    v: Seq<(Seq<char>, Seq<char>)>,
    i: int,
)
    requires
        0 <= i <= v.len(),
    ensures
        0 <= dedup_saved(est, v.take(i)) <= dedup_saved(est, v),
    decreases v.len(),
{
    if i == v.len() {
        assert(v.take(i) == v);
        lemma_dedup_saved_nonneg(est, v);
    } else {
        lemma_dedup_saved_monotone(est, v.drop_last(), i);
        assert(v.drop_last().take(i) == v.take(i));
    }
}

proof fn lemma_dedup_saved_nonneg<E: TokenEstimator>(est: &E, v: Seq<(Seq<char>, Seq<char>)>)
    ensures
        dedup_saved(est, v) >= 0,
    decreases v.len(),
{
    if v.len() > 0 {
        lemma_dedup_saved_nonneg(est, v.drop_last());
    }
}

proof fn lemma_dedup_len(v: Seq<(Seq<char>, Seq<char>)>)
    ensures
        dedup_view(v).len() <= v.len(),
        no_adjacent_duplicates(dedup_view(v)),
        v.len() > 0 ==> dedup_view(v).len() > 0,
    decreases v.len(),
{
    if v.len() > 0 {
        lemma_dedup_len(v.drop_last());
        let kept = dedup_view(v.drop_last());
        if !(kept.len() > 0 && kept.last() == v.last()) {
            let out = kept.push(v.last());
            assert forall|i: int| 0 < i < out.len() implies #[trigger] out[i] != out[i - 1] by {
                if i < kept.len() {
                    assert(out[i] == kept[i]);
                }
            }
        }
    }
}

proof fn lemma_dedup_fixed_point(w: Seq<(Seq<char>, Seq<char>)>)
    requires
        no_adjacent_duplicates(w),
    ensures
        dedup_view(w) == w,
    decreases w.len(),
{
    if w.len() > 0 {
        let d = w.drop_last();
        assert(no_adjacent_duplicates(d)) by {
            assert forall|i: int| 0 < i < d.len() implies #[trigger] d[i] != d[i - 1] by {
                assert(w[i] == d[i]);
            }
        }
        lemma_dedup_fixed_point(d);
        if d.len() > 0 {
            assert(w[w.len() - 1] != w[w.len() - 2]);
        }
        assert(d.push(w.last()) == w);
    }
}

/// De-duplication leaves no two adjacent identical messages, never
/// adds a message, keeps a non-empty history non-empty, and applying it a
/// second time changes nothing.
pub proof fn law_dedup_idempotent(v: Seq<(Seq<char>, Seq<char>)>)
    ensures
        no_adjacent_duplicates(dedup_view(v)),
        dedup_view(v).len() <= v.len(),
        v.len() > 0 ==> dedup_view(v).len() > 0,
        dedup_view(dedup_view(v)) == dedup_view(v),
{
    lemma_dedup_len(v);
    lemma_dedup_fixed_point(dedup_view(v));
}

/// A history without adjacent identical messages is left as it is.
pub proof fn law_dedup_keeps_distinct(v: Seq<(Seq<char>, Seq<char>)>)
    requires
        no_adjacent_duplicates(v),
    ensures
        dedup_view(v) == v,
{
    lemma_dedup_fixed_point(v);
}

impl ContextDedupe {
    /// Drops consecutive identical messages (same role and text), keeping
    /// the first of each run, and reports the counts and the estimated tokens saved.
    pub fn deduplicate<E: TokenEstimator>(messages: &[(String, String)], estimator: &E) -> (r: (
        Vec<(String, String)>,
        ContextDedupeReport,
    ))
        requires
            dedup_saved(estimator, pairs_view(messages@)) <= u32::MAX,
        ensures
            pairs_view(r.0@) == dedup_view(pairs_view(messages@)),
            r.1.messages_before == messages@.len(),
            r.1.messages_after == r.0@.len(),
            r.1.tokens_saved == dedup_saved(estimator, pairs_view(messages@)),
    {
        let ghost all = pairs_view(messages@);
        let mut result: Vec<(String, String)> = Vec::new();
        let mut saved: u32 = 0;
        let mut i: usize = 0;
        while i < messages.len()
            invariant
                i <= messages@.len(),
                all == pairs_view(messages@),
                dedup_saved(estimator, all) <= u32::MAX,
                pairs_view(result@) == dedup_view(all.take(i as int)),
                saved == dedup_saved(estimator, all.take(i as int)),
            decreases messages@.len() - i,
        {
            let (role, text) = &messages[i];
            proof {
                assert(all.take(i + 1).drop_last() == all.take(i as int));
                assert(all.take(i + 1).last() == pair_view(messages@[i as int]));
                lemma_dedup_saved_monotone(estimator, all, i + 1);
            }
            let n = result.len();
            let dup = if n > 0 {
                proof {
                    assert(pairs_view(result@)[n - 1] == pair_view(result@[n - 1]));
                }
                result[n - 1].0 == *role && result[n - 1].1 == *text
            } else {
                false
            };
            if dup {
                let t = estimator.estimate(text.as_str());
                saved = saved + t;
            } else {
                result.push((role.clone(), text.clone()));
                proof {
                    assert(pairs_view(result@) == dedup_view(all.take(i as int)).push(
                        pair_view(messages@[i as int]),
                    ));
                }
            }
            i = i + 1;
        }
        proof {
            assert(all.take(messages@.len() as int) == all);
        }
        let after = result.len();
        (result, ContextDedupeReport { messages_before: messages.len(), messages_after: after, tokens_saved: saved })
    }
}

/// Estimated tokens of the texts of a message sequence.
pub open spec fn history_tokens<E: TokenEstimator>(est: &E, s: Seq<(String, String)>) -> int
    decreases s.len(),
{
    if s.len() == 0 {
        0
    } else {
        history_tokens(est, s.drop_last()) + est.tokens_of(s.last().1@) as int
    }
}

/// Token estimates add up over a split of the sequence.
pub proof fn lemma_history_tokens_split<E: TokenEstimator>(
    est: &E,
    s: Seq<(String, String)>,
    k: int,
)
    requires
        0 <= k <= s.len(),
    ensures
        history_tokens(est, s) == history_tokens(est, s.take(k)) + history_tokens(
            est,
            s.skip(k),
        ),
        history_tokens(est, s.take(k)) >= 0,
        history_tokens(est, s.skip(k)) >= 0,
    decreases s.len(),
{
    if s.len() == 0 {
        assert(s.take(k) == s);
        assert(s.skip(k) == s);
    } else if k == s.len() {
        assert(s.take(k) == s);
        assert(s.skip(k).len() == 0);
        lemma_history_tokens_split(est, s.drop_last(), k - 1);
    } else {
        lemma_history_tokens_split(est, s.drop_last(), k);
        assert(s.drop_last().take(k) == s.take(k));
        assert(s.skip(k).drop_last() == s.drop_last().skip(k));
        assert(s.skip(k).last() == s.last());
    }
}

/// Result of history compaction.
#[derive(Debug, Clone)]
pub struct CompactedHistory {
    pub messages: Vec<(String, String)>,
    pub removed_count: usize,
    pub tokens_removed: u32,
}

/// Compacts history to fit within budget.
pub struct HistoryCompaction<'a, E: TokenEstimator> {
    config: &'a TokenBudgetConfig,
    estimator: &'a E,
}

impl<'a, E: TokenEstimator> HistoryCompaction<'a, E> {
    /// A compaction over a configuration and an estimator.
    pub fn new(config: &'a TokenBudgetConfig, estimator: &'a E) -> (r: Self)
        ensures
            r.config() == config,
            r.estimator() == estimator,
    {
        HistoryCompaction { config, estimator }
    }

    /// The configuration the compaction reads.
    pub closed spec fn config(&self) -> &'a TokenBudgetConfig {
        self.config
    }

    /// The estimator the compaction uses.
    pub closed spec fn estimator(&self) -> &'a E {
        self.estimator
    }

    /// Removes the oldest messages, one at a time, until the estimate of
    /// what is left fits the history budget; the rest is kept in order.
    pub fn compact(&self, messages: &[(String, String)]) -> (r: CompactedHistory)
        requires
            history_tokens(self.estimator(), messages@) <= u32::MAX,
        ensures
            r.removed_count <= messages@.len(),
            pairs_view(r.messages@) == pairs_view(messages@.skip(r.removed_count as int)),
            r.tokens_removed == history_tokens(
                self.estimator(),
                messages@.take(r.removed_count as int),
            ),
            history_tokens(self.estimator(), r.messages@) <= self.config().history_budget,
            history_tokens(self.estimator(), messages@) <= self.config().history_budget ==> r.removed_count == 0,
            forall|j: int|
                0 <= j < r.removed_count ==> history_tokens(
                    self.estimator(),
                    #[trigger] messages@.skip(j),
                ) > self.config().history_budget,
    {
        let ghost est = self.estimator;
        let budget = self.config.history_budget;
        let n = messages.len();
        let mut total: u32 = 0;
        let mut i: usize = 0;
        while i < n
            invariant
                n == messages@.len(),
                est == self.estimator(),
                i <= n,
                history_tokens(est, messages@) <= u32::MAX,
                total == history_tokens(est, messages@.take(i as int)),
            decreases n - i,
        {
            proof {
                lemma_history_tokens_split(est, messages@, i + 1);
                assert(messages@.take(i + 1).drop_last() == messages@.take(i as int));
                assert(messages@.take(i + 1).last() == messages@[i as int]);
            }
            let t = self.estimator.estimate(messages[i].1.as_str());
            total = total + t;
            i = i + 1;
        }
        proof {
            assert(messages@.take(n as int) == messages@);
        }
        let mut current: u32 = total;
        let mut removed: u32 = 0;
        let mut k: usize = 0;
        while k < n && current > budget
            invariant
                n == messages@.len(),
                est == self.estimator(),
                k <= n,
                total == history_tokens(est, messages@),
                budget == self.config().history_budget,
                removed == history_tokens(est, messages@.take(k as int)),
                current == history_tokens(est, messages@.skip(k as int)),
                current + removed == total,
                forall|j: int| 0 <= j < k ==> history_tokens(est, #[trigger] messages@.skip(j)) > budget,
            decreases n - k,
        {
            proof {
                lemma_history_tokens_split(est, messages@, k as int);
                lemma_history_tokens_split(est, messages@, k + 1);
                assert(messages@.take(k + 1).drop_last() == messages@.take(k as int));
                assert(messages@.take(k + 1).last() == messages@[k as int]);
            }
            let t = self.estimator.estimate(messages[k].1.as_str());
            current = current - t;
            removed = removed + t;
            k = k + 1;
        }
        proof {
            assert(messages@.skip(0) == messages@);
            lemma_history_tokens_split(est, messages@, k as int);
            if k == n {
                assert(messages@.skip(k as int).len() == 0);
            }
        }
        let mut kept: Vec<(String, String)> = Vec::new();
        let mut m: usize = k;
        while m < n
            invariant
                n == messages@.len(),
                k <= m <= n,
                pairs_view(kept@) == pairs_view(messages@.subrange(k as int, m as int)),
            decreases n - m,
        {
            let (role, text) = &messages[m];
            kept.push((role.clone(), text.clone()));
            proof {
                assert(messages@.subrange(k as int, m + 1) == messages@.subrange(k as int, m as int).push(
                    messages@[m as int],
                ));
                assert(pairs_view(kept@) == pairs_view(messages@.subrange(k as int, m as int)).push(
                    pair_view(messages@[m as int]),
                ));
            }
            m = m + 1;
        }
        proof {
            assert(messages@.subrange(k as int, n as int) == messages@.skip(k as int));
            assert(pairs_view(kept@) == pairs_view(messages@.skip(k as int)));
            lemma_history_tokens_view(est, kept@, messages@.skip(k as int));
        }
        CompactedHistory { messages: kept, removed_count: k, tokens_removed: removed }
    }
}

/// Token estimates depend only on the texts' views.
proof fn lemma_history_tokens_view<E: TokenEstimator>(
    est: &E,
    a: Seq<(String, String)>,
    b: Seq<(String, String)>,
)
    requires
        pairs_view(a) == pairs_view(b),
    ensures
        history_tokens(est, a) == history_tokens(est, b),
    decreases a.len(),
{
    assert(pairs_view(a).len() == a.len());
    assert(pairs_view(b).len() == b.len());
    if a.len() > 0 {
        assert(pairs_view(a.drop_last()) =~= pairs_view(a).drop_last());
        assert(pairs_view(b.drop_last()) =~= pairs_view(b).drop_last());
        assert(pairs_view(a)[a.len() - 1] == pairs_view(b)[b.len() - 1]);
        lemma_history_tokens_view(est, a.drop_last(), b.drop_last());
    }
}

} // verus!
