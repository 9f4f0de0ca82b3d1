//! The deterministic in-process full-text index: documents keyed by entry
//! id, matched by query terms, tags and frontmatter filters, and ranked by
//! weighted term hits.
use crate::json::{json_display, json_display_text, json_field_str, json_object, json_object_value, json_str_field};
use crate::knowledge::{query_terms, words, KnowledgeEntryId, KnowledgeFullTextQuery, KnowledgeIndexError};
use crate::ledger::{copy_strings, keyed, keys_increasing, put_sorted, remove_sorted, views, Keyed};
use crate::clock::now_unix_seconds;
use crate::permission::{
    check_decision, lifecycle_of, EnterpriseUserId, EnterpriseUserLifecycle, PermissionAction,
    PermissionDecision, PermissionStore, PermissionStoreView, ResourceId, ResourceType,
};
use crate::repository::{
    first_chars, has_all_tags, law_ranked_listing_unique, rank_results, ranked, KnowledgeEntryRef, KnowledgeSearchResult,
    MemoryKnowledgeRepository, SearchResultView,
};
use crate::text::{
    ascii_lower, ascii_lower_chars, chars_of, contains_chars, contains_seq, owned, push_str, str_eq,
    string_from_range, text_lt,
};
use vstd::prelude::*;

verus! {

/// Weight of a term found in the title.
pub const TITLE_WEIGHT: u32 = 4;

/// Weight of a term found in the body.
pub const BODY_WEIGHT: u32 = 2;

/// Weight of a term found in the tags.
pub const TAGS_WEIGHT: u32 = 3;

/// Weight of a term found in the frontmatter.
pub const FRONTMATTER_WEIGHT: u32 = 1;

/// An indexable document: an entry's reference, body, tags and frontmatter.
#[derive(Debug, Clone, PartialEq)]
pub struct KnowledgeIndexDocument {
    pub entry: KnowledgeEntryRef,
    pub body_markdown: String,
    pub tags: Vec<String>,
    pub frontmatter: serde_json::Value,
}

/// An index document as values.
pub struct IndexDocView {
    pub entry: KnowledgeEntryRef,
    pub body_markdown: Seq<char>,
    pub tags: Seq<String>,
    pub frontmatter: serde_json::Value,
}

impl View for KnowledgeIndexDocument {
    type V = IndexDocView;

    open spec fn view(&self) -> IndexDocView {
        IndexDocView {
            entry: self.entry,
            body_markdown: self.body_markdown@,
            tags: self.tags@,
            frontmatter: self.frontmatter,
        }
    }
}

impl Keyed for KnowledgeIndexDocument {
    open spec fn key_of(v: IndexDocView) -> Seq<char> {
        v.entry.id@
    }

    fn key_str(&self) -> (r: &str) {
        self.entry.id.as_str()
    }

    fn copy(&self) -> (r: Self) {
        KnowledgeIndexDocument {
            entry: self.entry.duplicate(),
            body_markdown: self.body_markdown.clone(),
            tags: copy_strings(&self.tags),
            frontmatter: self.frontmatter.clone(),
        }
    }
}

impl KnowledgeIndexDocument {
    /// A document with no tags and empty frontmatter.
    pub fn new<B: crate::text::IntoText>(entry: KnowledgeEntryRef, body_markdown: B) -> (r: Self)
        ensures
            r.entry == entry,
            r.body_markdown@ == body_markdown.text(),
            r.tags@.len() == 0,
            r.frontmatter == json_object_value(Seq::empty()),
    {
        let entries: Vec<(String, serde_json::Value)> = Vec::new();
        let frontmatter = json_object(entries);
        assert(entries@.map_values(|e: (String, serde_json::Value)| (e.0@, e.1)) =~= Seq::empty());
        KnowledgeIndexDocument { entry, body_markdown: body_markdown.into_text(), tags: Vec::new(), frontmatter }
    }

    /// The document with its tags replaced.
    pub fn with_tags(self, tags: Vec<String>) -> (r: Self)
        ensures
            r == (KnowledgeIndexDocument { tags, ..self }),
    {
        KnowledgeIndexDocument { tags, ..self }
    }

    /// The document with its frontmatter replaced.
    pub fn with_frontmatter(self, frontmatter: serde_json::Value) -> (r: Self)
        ensures
            r == (KnowledgeIndexDocument { frontmatter, ..self }),
    {
        KnowledgeIndexDocument { frontmatter, ..self }
    }
}

/// Texts joined with `sep` between them.
pub open spec fn join_texts(ts: Seq<Seq<char>>, sep: Seq<char>) -> Seq<char>
    decreases ts.len(),
{
    if ts.len() == 0 {
        Seq::empty()
    } else if ts.len() == 1 {
        ts[0]
    } else {
        join_texts(ts.drop_last(), sep) + sep + ts.last()
    }
}

/// The texts of tags.
pub open spec fn tag_texts(tags: Seq<String>) -> Seq<Seq<char>> {
    tags.map_values(|t: String| t@)
}

/// The tags of a document joined with spaces.
pub open spec fn joined_tags(d: IndexDocView) -> Seq<char> {
    join_texts(tag_texts(d.tags), seq![' '])
}

/// The text a document is searched in, in ASCII lower case: its title,
/// body, space-joined tags and frontmatter JSON, one per line.
pub open spec fn searchable_text(d: IndexDocView) -> Seq<char> {
    ascii_lower(d.entry.title@) + seq!['\n'] + ascii_lower(d.body_markdown) + seq!['\n'] + ascii_lower(
        joined_tags(d),
    ) + seq!['\n'] + ascii_lower(json_display_text(d.frontmatter))
}

/// The search terms of a query: its words in ASCII lower case.
pub open spec fn terms_of(q: KnowledgeFullTextQuery) -> Seq<Seq<char>> {
    words(ascii_lower(q.text@))
}

/// Whether every term occurs in `text`.
pub open spec fn all_terms_in(terms: Seq<Seq<char>>, text: Seq<char>) -> bool {
    forall|i: int| 0 <= i < terms.len() ==> contains_seq(text, #[trigger] terms[i])
}

/// Whether every filter `(key, value)` names a string field of `fm` with
/// that value.
pub open spec fn filters_hold(fm: serde_json::Value, filters: Seq<(String, String)>) -> bool {
    forall|i: int| 0 <= i < filters.len() ==> json_field_str(fm, (#[trigger] filters[i]).0@) == Some(filters[i].1@)
}

/// Whether a document matches a query: every term occurs in its searchable
/// text, it has every tag, and every frontmatter filter holds.
pub open spec fn doc_matches(d: IndexDocView, q: KnowledgeFullTextQuery) -> bool {
    all_terms_in(terms_of(q), searchable_text(d)) && has_all_tags(d.tags, q.tags@) && filters_hold(
        d.frontmatter,
        q.frontmatter_filters@,
    )
}

/// The weight a document earns for term `t`: the weights of the fields,
/// in ASCII lower case, that contain it.
pub open spec fn term_weight(d: IndexDocView, t: Seq<char>) -> nat {
    (if contains_seq(ascii_lower(d.entry.title@), t) {
        TITLE_WEIGHT as nat
    } else {
        0
    }) + (if contains_seq(ascii_lower(d.body_markdown), t) {
        BODY_WEIGHT as nat
    } else {
        0
    }) + (if contains_seq(ascii_lower(joined_tags(d)), t) {
        TAGS_WEIGHT as nat
    } else {
        0
    }) + (if contains_seq(ascii_lower(json_display_text(d.frontmatter)), t) {
        FRONTMATTER_WEIGHT as nat
    } else {
        0
    })
}

/// The total weight a document earns for `terms`.
pub open spec fn score_sum(d: IndexDocView, terms: Seq<Seq<char>>) -> nat
    decreases terms.len(),
{
    if terms.len() == 0 {
        0
    } else {
        score_sum(d, terms.drop_last()) + term_weight(d, terms.last())
    }
}

/// `n`, or the largest `u32` when `n` is larger.
pub open spec fn capped(n: nat) -> u32 {
    if n > u32::MAX {
        u32::MAX
    } else {
        n as u32
    }
}

/// The search result for a matching document: its total weight and the
/// first 160 characters of its body.
pub open spec fn doc_result(d: IndexDocView, q: KnowledgeFullTextQuery) -> SearchResultView {
    SearchResultView {
        entry: d.entry,
        score: capped(score_sum(d, terms_of(q))),
        snippet: Some(first_chars(d.body_markdown, 160)),
        permission_required: false,
        confidentiality: None,
    }
}

/// Whether `out` is what a query gives over the documents `docs`: the
/// results of the matching documents ranked by score then id, at most
/// `q.limit` of them.
pub open spec fn is_fulltext_outcome(docs: Seq<IndexDocView>, q: KnowledgeFullTextQuery, out: Seq<SearchResultView>) -> bool {
    exists|l: Seq<SearchResultView>|
        #[trigger] ranked(l) && (forall|y: SearchResultView|
            l.contains(y) <==> exists|i: int| 0 <= i < docs.len() && doc_matches(#[trigger] docs[i], q) && y == doc_result(docs[i], q))
            && out == l.take(
            if l.len() <= q.limit {
                l.len() as int
            } else {
                q.limit as int
            },
        )
}

/// The last document of `s` with key `k`, if any.
pub open spec fn last_keyed(s: Seq<IndexDocView>, k: Seq<char>) -> Option<IndexDocView>
    decreases s.len(),
{
    if s.len() == 0 {
        None
    } else if s.last().entry.id@ == k {
        Some(s.last())
    } else {
        last_keyed(s.drop_last(), k)
    }
}

/// Request to rebuild an index from documents; the time is Unix seconds.
#[derive(Debug, Clone, PartialEq)]
pub struct KnowledgeIndexRebuildRequest {
    pub documents: Vec<KnowledgeIndexDocument>,
    pub requested_at: i64,
}

/// Report of an index rebuild; the time is Unix seconds.
#[derive(Debug, Clone, Copy, PartialEq, Eq)]
pub struct KnowledgeIndexRebuildReport {
    pub indexed_count: usize,
    pub deleted_count: usize,
    pub rebuilt_at: i64,
}

/// The tags joined with spaces.
fn join_tags(tags: &Vec<String>) -> (r: String)
    ensures
        r@ == join_texts(tag_texts(tags@), seq![' ']),
{
    let mut s = String::new();
    let mut i: usize = 0;
    while i < tags.len()
        invariant
            i <= tags@.len(),
            s@ == join_texts(tag_texts(tags@.take(i as int)), seq![' ']),
        decreases tags@.len() - i,
    {
        proof {
            assert(tag_texts(tags@.take(i + 1)).drop_last() =~= tag_texts(tags@.take(i as int)));
            assert(tag_texts(tags@.take(i + 1)).last() == tags@[i as int]@);
        }
        if i > 0 {
            crate::text::push_char(&mut s, ' ');
        } else {
            assert(s@ =~= Seq::<char>::empty());
        }
        push_str(&mut s, tags[i].as_str());
        proof {
            if i == 0 {
                assert(s@ =~= tags@[0]@);
            }
        }
        i = i + 1;
    }
    proof {
        assert(tags@.take(tags@.len() as int) =~= tags@);
    }
    s
}

/// Whether every term occurs in `text`.
fn terms_in(terms: &Vec<Vec<char>>, text: &[char]) -> (r: bool)
    ensures
        r == all_terms_in(terms@.map_values(|t: Vec<char>| t@), text@),
{
    let ghost ts = terms@.map_values(|t: Vec<char>| t@);
    let mut i: usize = 0;
    while i < terms.len()
        invariant
            i <= terms@.len(),
            ts == terms@.map_values(|t: Vec<char>| t@),
            forall|k: int| 0 <= k < i ==> contains_seq(text@, #[trigger] ts[k]),
        decreases terms@.len() - i,
    {
        proof {
            assert(ts[i as int] == terms@[i as int]@);
        }
        if !contains_chars(text, terms[i].as_slice()) {
            return false;
        }
        i = i + 1;
    }
    true
}

/// Whether every filter holds on `fm`.
pub fn filters_match(fm: &serde_json::Value, filters: &Vec<(String, String)>) -> (r: bool)
    ensures
        r == filters_hold(*fm, filters@),
{
    let mut i: usize = 0;
    while i < filters.len()
        invariant
            i <= filters@.len(),
            forall|k: int| 0 <= k < i ==> json_field_str(*fm, (#[trigger] filters@[k]).0@) == Some(filters@[k].1@),
        decreases filters@.len() - i,
    {
        let (key, value) = &filters[i];
        let ok = match json_str_field(fm, key.as_str()) {
            Some(found) => str_eq(found.as_str(), value.as_str()),
            None => false,
        };
        if !ok {
            return false;
        }
        i = i + 1;
    }
    true
}

/// The deterministic in-process full-text backend; documents are kept
/// ordered by entry id.
#[derive(Debug, Clone)]
pub struct DeterministicFullTextKnowledgeBackend {
    documents: Vec<KnowledgeIndexDocument>,
}

impl View for DeterministicFullTextKnowledgeBackend {
    type V = Seq<IndexDocView>;

    closed spec fn view(&self) -> Seq<IndexDocView> {
        views(self.documents@)
    }
}

impl Default for DeterministicFullTextKnowledgeBackend {
    fn default() -> (r: Self)
        ensures
            r@.len() == 0,
            r.wf(),
    {
        Self::new()
    }
}

impl DeterministicFullTextKnowledgeBackend {
    /// The backend's invariant: documents are ordered by strictly
    /// increasing entry id.
    pub open spec fn wf(&self) -> bool {
        keys_increasing::<KnowledgeIndexDocument>(self@)
    }

    /// An empty backend.
    pub fn new() -> (r: Self)
        ensures
            r@.len() == 0,
            r.wf(),
    {
        let r = DeterministicFullTextKnowledgeBackend { documents: Vec::new() };
        assert(r@ =~= Seq::<IndexDocView>::empty());
        r
    }

    /// Stores a document in place of the one with the same entry id.
    pub fn upsert(&mut self, document: KnowledgeIndexDocument) -> (r: Result<(), KnowledgeIndexError>)
        requires
            old(self).wf(),
        ensures
            final(self).wf(),
            r is Ok,
            forall|k: Seq<char>|
                #[trigger] keyed::<KnowledgeIndexDocument>(final(self)@, k) == if k == document.entry.id@ {
                    Some(document@)
                } else {
                    keyed::<KnowledgeIndexDocument>(old(self)@, k)
                },
    {
        put_sorted(&mut self.documents, document);
        Ok(())
    }

    /// Removes the document with entry id `id`, if any.
    pub fn delete(&mut self, id: &KnowledgeEntryId) -> (r: Result<(), KnowledgeIndexError>)
        requires
            old(self).wf(),
        ensures
            final(self).wf(),
            r is Ok,
            forall|k: Seq<char>|
                #[trigger] keyed::<KnowledgeIndexDocument>(final(self)@, k) == if k == id@ {
                    None
                } else {
                    keyed::<KnowledgeIndexDocument>(old(self)@, k)
                },
    {
        remove_sorted(&mut self.documents, id.as_str());
        Ok(())
    }

    /// The search result for document `d`, which matches `q`.
    fn result_for(d: &KnowledgeIndexDocument, terms: &Vec<Vec<char>>, Ghost(q): Ghost<KnowledgeFullTextQuery>) -> (r: KnowledgeSearchResult)
        requires
            terms@.map_values(|t: Vec<char>| t@) == terms_of(q),
        ensures
            r@ == doc_result(d@, q),
    {
        let ghost ts = terms_of(q);
        let title = ascii_lower_chars(d.entry.title.as_str());
        let body = ascii_lower_chars(d.body_markdown.as_str());
        let tags_text = join_tags(&d.tags);
        let tags = ascii_lower_chars(tags_text.as_str());
        let fm_text = json_display(&d.frontmatter);
        let fm = ascii_lower_chars(fm_text.as_str());
        let mut score: u32 = 0;
        let mut i: usize = 0;
        while i < terms.len()
            invariant
                i <= terms@.len(),
                ts == terms@.map_values(|t: Vec<char>| t@),
                title@ == ascii_lower(d@.entry.title@),
                body@ == ascii_lower(d@.body_markdown),
                tags@ == ascii_lower(joined_tags(d@)),
                fm@ == ascii_lower(json_display_text(d@.frontmatter)),
                score == capped(score_sum(d@, ts.take(i as int))),
            decreases terms@.len() - i,
        {
            let t = terms[i].as_slice();
            let mut w: u32 = 0;
            if contains_chars(title.as_slice(), t) {
                w = w + TITLE_WEIGHT;
            }
            if contains_chars(body.as_slice(), t) {
                w = w + BODY_WEIGHT;
            }
            if contains_chars(tags.as_slice(), t) {
                w = w + TAGS_WEIGHT;
            }
            if contains_chars(fm.as_slice(), t) {
                w = w + FRONTMATTER_WEIGHT;
            }
            proof {
                assert(ts.take(i + 1).drop_last() =~= ts.take(i as int));
                assert(ts.take(i + 1).last() == ts[i as int]);
                assert(ts[i as int] == terms@[i as int]@);
                assert(w == term_weight(d@, ts[i as int]));
            }
            score = score.saturating_add(w);
            i = i + 1;
        }
        proof {
            assert(ts.take(ts.len() as int) =~= ts);
        }
        let cs = chars_of(d.body_markdown.as_str());
        let end: usize = if cs.len() <= 160 {
            cs.len()
        } else {
            160
        };
        let snippet = string_from_range(cs.as_slice(), 0, end);
        proof {
            assert(cs@.subrange(0, end as int) =~= first_chars(d@.body_markdown, 160));
        }
        KnowledgeSearchResult {
            entry: d.entry.duplicate(),
            score,
            snippet: Some(snippet),
            permission_required: false,
            confidentiality: None,
        }
    }

    /// Whether document `d` matches the query.
    fn matches(d: &KnowledgeIndexDocument, terms: &Vec<Vec<char>>, q: &KnowledgeFullTextQuery) -> (r: bool)
        requires
            terms@.map_values(|t: Vec<char>| t@) == terms_of(*q),
        ensures
            r == doc_matches(d@, *q),
    {
        let title = ascii_lower_chars(d.entry.title.as_str());
        let body = ascii_lower_chars(d.body_markdown.as_str());
        let tags_text = join_tags(&d.tags);
        let tags = ascii_lower_chars(tags_text.as_str());
        let fm_text = json_display(&d.frontmatter);
        let fm = ascii_lower_chars(fm_text.as_str());
        let mut searchable: Vec<char> = title;
        searchable.push('\n');
        let mut k: usize = 0;
        while k < body.len()
            invariant
                k <= body@.len(),
                searchable@ == ascii_lower(d@.entry.title@) + seq!['\n'] + body@.take(k as int),
            decreases body@.len() - k,
        {
            searchable.push(body[k]);
            proof {
                assert(body@.take(k + 1) =~= body@.take(k as int).push(body@[k as int]));
            }
            k = k + 1;
        }
        searchable.push('\n');
        let ghost prefix1 = searchable@;
        let mut k: usize = 0;
        while k < tags.len()
            invariant
                k <= tags@.len(),
                searchable@ == prefix1 + tags@.take(k as int),
            decreases tags@.len() - k,
        {
            searchable.push(tags[k]);
            proof {
                assert(tags@.take(k + 1) =~= tags@.take(k as int).push(tags@[k as int]));
            }
            k = k + 1;
        }
        searchable.push('\n');
        let ghost prefix2 = searchable@;
        let mut k: usize = 0;
        while k < fm.len()
            invariant
                k <= fm@.len(),
                searchable@ == prefix2 + fm@.take(k as int),
            decreases fm@.len() - k,
        {
            searchable.push(fm[k]);
            proof {
                assert(fm@.take(k + 1) =~= fm@.take(k as int).push(fm@[k as int]));
            }
            k = k + 1;
        }
        proof {
            assert(body@.take(body@.len() as int) =~= body@);
            assert(tags@.take(tags@.len() as int) =~= tags@);
            assert(fm@.take(fm@.len() as int) =~= fm@);
            assert(searchable@ =~= searchable_text(d@));
        }
        let text_ok = terms_in(terms, searchable.as_slice());
        let tags_ok = MemoryKnowledgeRepository::has_tags(&d.tags, &q.tags);
        let filters_ok = filters_match(&d.frontmatter, &q.frontmatter_filters);
        text_ok && tags_ok && filters_ok
    }

    /// The documents matching `query`, ranked by score and then id, at most
    /// `limit` of them; a zero limit is refused.
    pub fn query(&self, query: &KnowledgeFullTextQuery) -> (r: Result<Vec<KnowledgeSearchResult>, KnowledgeIndexError>)
        requires
            self.wf(),
        ensures
            query.limit == 0 ==> (r matches Err(KnowledgeIndexError::InvalidQuery(m)) && m@
                == "knowledge full-text query limit must be greater than zero"@),
            query.limit > 0 ==> (r matches Ok(v) && is_fulltext_outcome(self@, *query, views(v@))),
    {
        if query.limit == 0 {
            return Err(KnowledgeIndexError::InvalidQuery(owned("knowledge full-text query limit must be greater than zero")));
        }
        let term_strings = query_terms(query.text.as_str());
        let mut terms: Vec<Vec<char>> = Vec::new();
        let mut j: usize = 0;
        while j < term_strings.len()
            invariant
                j <= term_strings@.len(),
                terms@.map_values(|t: Vec<char>| t@) == term_strings@.take(j as int).map_values(|t: String| t@),
            decreases term_strings@.len() - j,
        {
            let cs = chars_of(term_strings[j].as_str());
            let ghost before = terms@.map_values(|t: Vec<char>| t@);
            let ghost csv = cs@;
            terms.push(cs);
            proof {
                assert(terms@.map_values(|t: Vec<char>| t@) =~= before.push(csv));
                assert(term_strings@.take(j + 1).map_values(|t: String| t@) =~= term_strings@.take(j as int).map_values(
                    |t: String| t@,
                ).push(term_strings@[j as int]@));
            }
            j = j + 1;
        }
        proof {
            assert(term_strings@.take(term_strings@.len() as int) =~= term_strings@);
        }
        let ghost q = *query;
        let ghost docs = self@;
        let mut results: Vec<KnowledgeSearchResult> = Vec::new();
        let mut i: usize = 0;
        while i < self.documents.len()
            invariant
                i <= self.documents@.len(),
                docs == self@,
                keys_increasing::<KnowledgeIndexDocument>(docs),
                q == *query,
                terms@.map_values(|t: Vec<char>| t@) == terms_of(q),
                forall|a: int, b: int|
                    0 <= a < b < results@.len() ==> text_lt((#[trigger] results@[a]).entry.id@, (#[trigger] results@[b]).entry.id@),
                forall|m: int| 0 <= m < results@.len() ==> exists|k: int| 0 <= k < i && (#[trigger] results@[m]).entry.id@ == docs[k].entry.id@,
                forall|y: SearchResultView| #[trigger]
                    views(results@).contains(y) <==> exists|k: int|
                        0 <= k < i && doc_matches(#[trigger] docs[k], q) && y == doc_result(docs[k], q),
            decreases self.documents@.len() - i,
        {
            let d = &self.documents[i];
            proof {
                assert(docs[i as int] == self.documents@[i as int]@);
            }
            if Self::matches(d, &terms, query) {
                let res = Self::result_for(d, &terms, Ghost(q));
                let ghost before = views(results@);
                let ghost before_exec = results@;
                results.push(res);
                proof {
                    assert forall|a: int, b: int|
                        0 <= a < b < results@.len() implies text_lt((#[trigger] results@[a]).entry.id@, (#[trigger] results@[b]).entry.id@) by {
                        if b == results@.len() - 1 {
                            let k = choose|k: int| 0 <= k < i && (#[trigger] before_exec[a]).entry.id@ == docs[k].entry.id@;
                            assert(results@[a] == before_exec[a]);
                            assert(text_lt(docs[k].entry.id@, docs[i as int].entry.id@));
                        } else {
                            assert(results@[a] == before_exec[a] && results@[b] == before_exec[b]);
                        }
                    }
                    assert forall|m: int| 0 <= m < results@.len() implies exists|k: int| 0 <= k < i + 1 && (#[trigger] results@[m]).entry.id@ == docs[k].entry.id@ by {
                        if m == results@.len() - 1 {
                            assert(results@[m].entry.id@ == docs[i as int].entry.id@);
                        } else {
                            assert(results@[m] == before_exec[m]);
                            let k = choose|k: int| 0 <= k < i && (#[trigger] before_exec[m]).entry.id@ == docs[k].entry.id@;
                        }
                    }
                    assert(views(results@) =~= before.push(doc_result(docs[i as int], q)));
                    assert forall|y: SearchResultView| #[trigger]
                        views(results@).contains(y) <==> exists|k: int|
                            0 <= k < i + 1 && doc_matches(#[trigger] docs[k], q) && y == doc_result(docs[k], q) by {
                        if y == doc_result(docs[i as int], q) {
                            assert(views(results@)[results@.len() - 1] == y);
                        }
                        if views(results@).contains(y) {
                            let m = choose|m: int| 0 <= m < views(results@).len() && views(results@)[m] == y;
                            if m < before.len() {
                                assert(before[m] == y);
                                assert(before.contains(y));
                            }
                        }
                        if exists|k: int| 0 <= k < i + 1 && doc_matches(#[trigger] docs[k], q) && y == doc_result(docs[k], q) {
                            let k = choose|k: int| 0 <= k < i + 1 && doc_matches(#[trigger] docs[k], q) && y == doc_result(docs[k], q);
                            if k < i {
                                assert(before.contains(y));
                                let m = choose|m: int| 0 <= m < before.len() && before[m] == y;
                                assert(views(results@)[m] == y);
                            }
                        }
                    }
                }
            } else {
                proof {
                    assert forall|y: SearchResultView| #[trigger]
                        views(results@).contains(y) <==> exists|k: int|
                            0 <= k < i + 1 && doc_matches(#[trigger] docs[k], q) && y == doc_result(docs[k], q) by {
                        if exists|k: int| 0 <= k < i + 1 && doc_matches(#[trigger] docs[k], q) && y == doc_result(docs[k], q) {
                            let k = choose|k: int| 0 <= k < i + 1 && doc_matches(#[trigger] docs[k], q) && y == doc_result(docs[k], q);
                            assert(k < i);
                        }
                    }
                }
            }
            i = i + 1;
        }
        proof {
            assert forall|a: int, b: int|
                0 <= a < b < results@.len() implies (#[trigger] results@[a]).entry.id@ != (#[trigger] results@[b]).entry.id@ by {
                crate::text::lemma_text_lt_irreflexive(results@[a].entry.id@);
            }
        }
        let ranked_results = rank_results(results);
        let ghost l = views(ranked_results@);
        let count: usize = if ranked_results.len() <= query.limit {
            ranked_results.len()
        } else {
            query.limit
        };
        let mut out: Vec<KnowledgeSearchResult> = Vec::new();
        let mut k: usize = 0;
        while k < count
            invariant
                k <= count,
                count <= ranked_results@.len(),
                l == views(ranked_results@),
                views(out@) == l.take(k as int),
            decreases count - k,
        {
            let c = ranked_results[k].copy();
            let ghost before = views(out@);
            out.push(c);
            proof {
                assert(l[k as int] == ranked_results@[k as int]@);
                assert(views(out@) =~= before.push(l[k as int]));
                assert(l.take(k + 1) =~= l.take(k as int).push(l[k as int]));
            }
            k = k + 1;
        }
        proof {
            assert(ranked(l));
        }
        Ok(out)
    }

    /// Replaces all documents with those of `request`, a later document
    /// for an entry replacing an earlier one, and reports the counts.
    pub fn rebuild(&mut self, request: KnowledgeIndexRebuildRequest) -> (r: Result<
        KnowledgeIndexRebuildReport,
        KnowledgeIndexError,
    >)
        requires
            old(self).wf(),
        ensures
            final(self).wf(),
            r matches Ok(report) && report.deleted_count == old(self)@.len() && report.indexed_count
                == final(self)@.len() && report.rebuilt_at == request.requested_at,
            forall|k: Seq<char>|
                #[trigger] keyed::<KnowledgeIndexDocument>(final(self)@, k) == last_keyed(
                    views(request.documents@),
                    k,
                ),
    {
        let deleted_count = self.documents.len();
        let ghost req = views(request.documents@);
        let mut docs: Vec<KnowledgeIndexDocument> = Vec::new();
        proof {
            assert forall|k: Seq<char>| #[trigger] keyed::<KnowledgeIndexDocument>(views(docs@), k) == last_keyed(req.take(0), k) by {
                assert(req.take(0).len() == 0);
                assert(views(docs@).len() == 0);
            }
        }
        let mut i: usize = 0;
        while i < request.documents.len()
            invariant
                i <= request.documents@.len(),
                req == views(request.documents@),
                keys_increasing::<KnowledgeIndexDocument>(views(docs@)),
                forall|k: Seq<char>| #[trigger] keyed::<KnowledgeIndexDocument>(views(docs@), k) == last_keyed(req.take(i as int), k),
            decreases request.documents@.len() - i,
        {
            let c = request.documents[i].copy();
            let ghost cv = c@;
            put_sorted(&mut docs, c);
            proof {
                assert(req.take(i + 1).drop_last() =~= req.take(i as int));
                assert(req.take(i + 1).last() == req[i as int]);
                assert(req[i as int] == request.documents@[i as int]@);
                assert forall|k: Seq<char>| #[trigger] keyed::<KnowledgeIndexDocument>(views(docs@), k) == last_keyed(req.take(i + 1), k) by {}
            }
            i = i + 1;
        }
        proof {
            assert(req.take(req.len() as int) =~= req);
        }
        self.documents = docs;
        Ok(KnowledgeIndexRebuildReport { indexed_count: self.documents.len(), deleted_count, rebuilt_at: request.requested_at })
    }
}

/// A query has one outcome: two result lists that both satisfy the
/// full-text contract for the same documents and query are equal.
pub proof fn law_fulltext_outcome_unique(
    docs: Seq<IndexDocView>,
    q: KnowledgeFullTextQuery,
    a: Seq<SearchResultView>,
    b: Seq<SearchResultView>,
)
    requires
        is_fulltext_outcome(docs, q, a),
        is_fulltext_outcome(docs, q, b),
    ensures
        a == b,
{
    let la = choose|l: Seq<SearchResultView>|
        #[trigger] ranked(l) && (forall|y: SearchResultView|
            l.contains(y) <==> exists|i: int| 0 <= i < docs.len() && doc_matches(#[trigger] docs[i], q) && y == doc_result(docs[i], q))
            && a == l.take(
            if l.len() <= q.limit {
                l.len() as int
            } else {
                q.limit as int
            },
        );
    let lb = choose|l: Seq<SearchResultView>|
        #[trigger] ranked(l) && (forall|y: SearchResultView|
            l.contains(y) <==> exists|i: int| 0 <= i < docs.len() && doc_matches(#[trigger] docs[i], q) && y == doc_result(docs[i], q))
            && b == l.take(
            if l.len() <= q.limit {
                l.len() as int
            } else {
                q.limit as int
            },
        );
    law_ranked_listing_unique(la, lb);
}

/// Whether `user` may read the entry of result `r` at time `now` under the
/// grants and lifecycles of `perms`.
pub open spec fn result_visible(perms: PermissionStoreView, user: Seq<char>, now: i64) -> spec_fn(SearchResultView) -> bool {
    |r: SearchResultView|
        check_decision(
            perms.grants,
            perms.statuses,
            user,
            ResourceType::KnowledgeBase,
            r.entry.id@,
            PermissionAction::Read,
            now,
        ) == PermissionDecision::Allow
}

/// Whether `out` is what a permission-aware query answers `user` at time
/// `now`: nothing for a user who is not active, else the full-text results
/// whose entries the user may read, in rank order.
pub open spec fn is_permitted_outcome(
    docs: Seq<IndexDocView>,
    perms: PermissionStoreView,
    q: KnowledgeFullTextQuery,
    user: Seq<char>,
    now: i64,
    out: Seq<SearchResultView>,
) -> bool {
    if lifecycle_of(perms.statuses, user) != EnterpriseUserLifecycle::Active {
        out.len() == 0
    } else {
        exists|all: Seq<SearchResultView>| #[trigger]
            is_fulltext_outcome(docs, q, all) && out == all.filter(result_visible(perms, user, now))
    }
}

/// Full-text search whose results are filtered by the permissions of the
/// asking user.
#[derive(Debug, Clone)]
pub struct PermissionAwareKnowledgeSearch {
    pub inner: DeterministicFullTextKnowledgeBackend,
    pub permission_store: PermissionStore,
}

impl PermissionAwareKnowledgeSearch {
    /// Whether the index and the permission store keep their invariants.
    pub open spec fn wf(&self) -> bool {
        self.inner.wf() && self.permission_store.wf()
    }

    /// Wraps an index with a permission store.
    pub fn new(inner: DeterministicFullTextKnowledgeBackend, permission_store: PermissionStore) -> (r: Self)
        ensures
            r.inner == inner,
            r.permission_store == permission_store,
    {
        PermissionAwareKnowledgeSearch { inner, permission_store }
    }

    /// The results of `query` that `user_id` may read at time `now`; a user
    /// who is not active gets none, and a zero limit is refused otherwise.
    pub fn query_at(&self, query: &KnowledgeFullTextQuery, user_id: &EnterpriseUserId, now: i64) -> (r: Result<
        Vec<KnowledgeSearchResult>,
        KnowledgeIndexError,
    >)
        requires
            self.wf(),
        ensures
            lifecycle_of(self.permission_store@.statuses, user_id@) == EnterpriseUserLifecycle::Active && query.limit
                == 0 ==> (r matches Err(KnowledgeIndexError::InvalidQuery(m)) && m@
                == "knowledge full-text query limit must be greater than zero"@),
            lifecycle_of(self.permission_store@.statuses, user_id@) != EnterpriseUserLifecycle::Active || query.limit
                > 0 ==> (r matches Ok(v) && is_permitted_outcome(
                self.inner@,
                self.permission_store@,
                *query,
                user_id@,
                now,
                views(v@),
            )),
    {
        if !self.permission_store.get_user_lifecycle(user_id).is_active() {
            let none: Vec<KnowledgeSearchResult> = Vec::new();
            assert(views(none@) =~= Seq::<SearchResultView>::empty());
            return Ok(none);
        }
        let results = match self.inner.query(query) {
            Ok(v) => v,
            Err(e) => {
                return Err(e);
            },
        };
        let ghost visible = result_visible(self.permission_store@, user_id@, now);
        let ghost all = views(results@);
        let mut out: Vec<KnowledgeSearchResult> = Vec::new();
        let mut i: usize = 0;
        while i < results.len()
            invariant
                i <= results@.len(),
                self.wf(),
                all == views(results@),
                visible == result_visible(self.permission_store@, user_id@, now),
                views(out@) == all.take(i as int).filter(visible),
            decreases results@.len() - i,
        {
            let resource_id = ResourceId::from(results[i].entry.id.0.clone());
            let allowed = self.permission_store.check(
                user_id,
                &ResourceType::KnowledgeBase,
                &resource_id,
                &PermissionAction::Read,
                now,
            ).is_allowed();
            let ghost before = views(out@);
            if allowed {
                out.push(results[i].copy());
                assert(views(out@) =~= before.push(all[i as int]));
            } else {
                assert(views(out@) =~= before);
            }
            proof {
                reveal(Seq::filter);
                assert(all.take(i + 1).drop_last() =~= all.take(i as int));
                assert(all.take(i + 1).last() == all[i as int]);
                assert(allowed == visible(all[i as int]));
            }
            i = i + 1;
        }
        proof {
            assert(all.take(all.len() as int) =~= all);
        }
        Ok(out)
    }

    /// The results of `query` that `user_id` may read now.
    pub fn query_with_permissions(&self, query: &KnowledgeFullTextQuery, user_id: &EnterpriseUserId) -> (r: Result<
        Vec<KnowledgeSearchResult>,
        KnowledgeIndexError,
    >)
        requires
            self.wf(),
        ensures
            lifecycle_of(self.permission_store@.statuses, user_id@) == EnterpriseUserLifecycle::Active && query.limit
                == 0 ==> (r matches Err(KnowledgeIndexError::InvalidQuery(m)) && m@
                == "knowledge full-text query limit must be greater than zero"@),
            lifecycle_of(self.permission_store@.statuses, user_id@) != EnterpriseUserLifecycle::Active || query.limit
                > 0 ==> (r matches Ok(v) && exists|now: i64| #[trigger]
                is_permitted_outcome(self.inner@, self.permission_store@, *query, user_id@, now, views(v@))),
    {
        let now = now_unix_seconds();
        self.query_at(query, user_id, now)
    }
}

} // verus!

