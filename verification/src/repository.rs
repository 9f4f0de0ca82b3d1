//! Knowledge entries: drafts, updates and the in-memory repository that
//! saves, finds, searches and updates them.
use crate::json::{json_object, json_object_value};
use crate::knowledge::{
    blank, validate_draft_fields, KnowledgeEntryId, KnowledgeRepositoryError, KnowledgeSearchQuery,
    KnowledgeValidationError,
};
use crate::ledger::{
    copy_opt_string, copy_strings, has_key, is_text, key_index, keyed, lemma_keyed_at,
    law_listing_is_unique, lemma_numbered_distinct, lists_matching, numbered, numbered_id, position_of, select_sorted,
    views, ArtifactId, AssetId, Keyed,
};
use crate::markdown_repo::{to_lowercase, unicode_lowercase};
use crate::text::{
    chars_of, contains_chars, contains_seq, lemma_text_lt_irreflexive, lemma_text_lt_total,
    lemma_text_lt_transitive, str_eq, string_from_range, text_less, text_lt, IntoText,
};
use vstd::prelude::*;

verus! {

/// Lightweight reference to a saved knowledge entry; the time is Unix
/// seconds.
#[derive(Debug, Clone, PartialEq, Eq)]
pub struct KnowledgeEntryRef {
    pub id: KnowledgeEntryId,
    pub title: String,
    pub source_uri: Option<String>,
    pub artifact_id: Option<ArtifactId>,
    pub asset_id: Option<AssetId>,
    pub created_at: i64,
}

impl View for KnowledgeEntryRef {
    type V = KnowledgeEntryRef;

    open spec fn view(&self) -> KnowledgeEntryRef {
        *self
    }
}

impl Keyed for KnowledgeEntryRef {
    open spec fn key_of(v: KnowledgeEntryRef) -> Seq<char> {
        v.id@
    }

    fn key_str(&self) -> (r: &str) {
        self.id.as_str()
    }

    fn copy(&self) -> (r: Self) {
        self.duplicate()
    }
}

impl KnowledgeEntryRef {
    /// An equal copy.
    pub fn duplicate(&self) -> (r: Self)
        ensures
            r == *self,
    {
        KnowledgeEntryRef {
            id: self.id.duplicate(),
            title: self.title.clone(),
            source_uri: copy_opt_string(&self.source_uri),
            artifact_id: match &self.artifact_id {
                Some(a) => Some(a.duplicate()),
                None => None,
            },
            asset_id: match &self.asset_id {
                Some(a) => Some(a.duplicate()),
                None => None,
            },
            created_at: self.created_at,
        }
    }
}

/// Draft content that can later be saved as a knowledge entry; the time is
/// Unix seconds.
#[derive(Debug, Clone, PartialEq)]
pub struct KnowledgeEntryDraft {
    pub title: String,
    pub content_markdown: String,
    pub source_uri: Option<String>,
    pub source_artifact_id: Option<ArtifactId>,
    pub source_asset_id: Option<AssetId>,
    pub tags: Vec<String>,
    pub metadata: serde_json::Value,
    pub created_at: i64,
}

impl KnowledgeEntryDraft {
    /// A draft with no source, no tags and empty metadata.
    pub fn new<T: IntoText, C: IntoText>(title: T, content_markdown: C, created_at: i64) -> (r: Self)
        ensures
            r.title@ == title.text(),
            r.content_markdown@ == content_markdown.text(),
            r.source_uri is None,
            r.source_artifact_id is None,
            r.source_asset_id is None,
            r.tags@.len() == 0,
            r.metadata == json_object_value(Seq::empty()),
            r.created_at == created_at,
    {
        let entries: Vec<(String, serde_json::Value)> = Vec::new();
        let metadata = json_object(entries);
        assert(entries@.map_values(|e: (String, serde_json::Value)| (e.0@, e.1)) =~= Seq::empty());
        KnowledgeEntryDraft {
            title: title.into_text(),
            content_markdown: content_markdown.into_text(),
            source_uri: None,
            source_artifact_id: None,
            source_asset_id: None,
            tags: Vec::new(),
            metadata,
            created_at,
        }
    }

    /// The draft with its source URI set.
    pub fn with_source_uri<U: IntoText>(self, source_uri: U) -> (r: Self)
        ensures
            is_text(r.source_uri, source_uri.text()),
            r == (KnowledgeEntryDraft { source_uri: r.source_uri, ..self }),
    {
        KnowledgeEntryDraft { source_uri: Some(source_uri.into_text()), ..self }
    }

    /// The draft with its source artifact set.
    pub fn with_source_artifact_id<A: IntoText>(self, artifact_id: A) -> (r: Self)
        ensures
            r.source_artifact_id matches Some(a) && a@ == artifact_id.text(),
            r == (KnowledgeEntryDraft { source_artifact_id: r.source_artifact_id, ..self }),
    {
        KnowledgeEntryDraft { source_artifact_id: Some(ArtifactId::from(artifact_id)), ..self }
    }

    /// The draft with its source asset set.
    pub fn with_source_asset_id<A: IntoText>(self, asset_id: A) -> (r: Self)
        ensures
            r.source_asset_id matches Some(a) && a@ == asset_id.text(),
            r == (KnowledgeEntryDraft { source_asset_id: r.source_asset_id, ..self }),
    {
        KnowledgeEntryDraft { source_asset_id: Some(AssetId::from(asset_id)), ..self }
    }

    /// The draft with its tags replaced.
    pub fn with_tags(self, tags: Vec<String>) -> (r: Self)
        ensures
            r == (KnowledgeEntryDraft { tags, ..self }),
    {
        KnowledgeEntryDraft { tags, ..self }
    }

    /// The draft with its metadata replaced.
    pub fn with_metadata(self, metadata: serde_json::Value) -> (r: Self)
        ensures
            r == (KnowledgeEntryDraft { metadata, ..self }),
    {
        KnowledgeEntryDraft { metadata, ..self }
    }

    /// Checks the draft can be written: the title, then the content, must
    /// not be blank.
    pub fn validate_for_write(&self) -> (r: Result<(), KnowledgeValidationError>)
        ensures
            blank(self.title@) ==> r == Err::<(), KnowledgeValidationError>(KnowledgeValidationError::BlankTitle),
            !blank(self.title@) && blank(self.content_markdown@) ==> r == Err::<(), KnowledgeValidationError>(
                KnowledgeValidationError::BlankContent,
            ),
            !blank(self.title@) && !blank(self.content_markdown@) ==> r is Ok,
    {
        validate_draft_fields(self.title.as_str(), self.content_markdown.as_str())
    }
}

/// Partial update for a knowledge entry: a `None` field keeps the value,
/// a `Some` field replaces it.
#[derive(Debug, Clone, PartialEq)]
pub struct KnowledgeEntryUpdate {
    pub title: Option<String>,
    pub content_markdown: Option<String>,
    pub tags: Option<Vec<String>>,
    pub source_uri: Option<String>,
    pub metadata: Option<serde_json::Value>,
}

impl Default for KnowledgeEntryUpdate {
    fn default() -> (r: Self)
        ensures
            r.title is None,
            r.content_markdown is None,
            r.tags is None,
            r.source_uri is None,
            r.metadata is None,
    {
        KnowledgeEntryUpdate { title: None, content_markdown: None, tags: None, source_uri: None, metadata: None }
    }
}

impl KnowledgeEntryUpdate {
    /// An update that changes nothing.
    pub fn new() -> (r: Self)
        ensures
            r.title is None,
            r.content_markdown is None,
            r.tags is None,
            r.source_uri is None,
            r.metadata is None,
    {
        Self::default()
    }

    /// The update with a new title.
    pub fn with_title<T: IntoText>(self, title: T) -> (r: Self)
        ensures
            is_text(r.title, title.text()),
            r == (KnowledgeEntryUpdate { title: r.title, ..self }),
    {
        KnowledgeEntryUpdate { title: Some(title.into_text()), ..self }
    }

    /// The update with new content.
    pub fn with_content<C: IntoText>(self, content: C) -> (r: Self)
        ensures
            is_text(r.content_markdown, content.text()),
            r == (KnowledgeEntryUpdate { content_markdown: r.content_markdown, ..self }),
    {
        KnowledgeEntryUpdate { content_markdown: Some(content.into_text()), ..self }
    }

    /// The update with new tags.
    pub fn with_tags(self, tags: Vec<String>) -> (r: Self)
        ensures
            r == (KnowledgeEntryUpdate { tags: Some(tags), ..self }),
    {
        KnowledgeEntryUpdate { tags: Some(tags), ..self }
    }

    /// The update with a new source URI.
    pub fn with_source_uri<U: IntoText>(self, uri: U) -> (r: Self)
        ensures
            is_text(r.source_uri, uri.text()),
            r == (KnowledgeEntryUpdate { source_uri: r.source_uri, ..self }),
    {
        KnowledgeEntryUpdate { source_uri: Some(uri.into_text()), ..self }
    }

    /// The update with new metadata.
    pub fn with_metadata(self, metadata: serde_json::Value) -> (r: Self)
        ensures
            r == (KnowledgeEntryUpdate { metadata: Some(metadata), ..self }),
    {
        KnowledgeEntryUpdate { metadata: Some(metadata), ..self }
    }
}

/// One knowledge search result; the score is a whole number.
#[derive(Debug, Clone, PartialEq)]
pub struct KnowledgeSearchResult {
    pub entry: KnowledgeEntryRef,
    pub score: u32,
    pub snippet: Option<String>,
    pub permission_required: bool,
    pub confidentiality: Option<String>,
}

/// A search result as values.
pub struct SearchResultView {
    pub entry: KnowledgeEntryRef,
    pub score: u32,
    pub snippet: Option<Seq<char>>,
    pub permission_required: bool,
    pub confidentiality: Option<Seq<char>>,
}

impl View for KnowledgeSearchResult {
    type V = SearchResultView;

    open spec fn view(&self) -> SearchResultView {
        SearchResultView {
            entry: self.entry,
            score: self.score,
            snippet: match self.snippet {
                Some(s) => Some(s@),
                None => None,
            },
            permission_required: self.permission_required,
            confidentiality: match self.confidentiality {
                Some(s) => Some(s@),
                None => None,
            },
        }
    }
}

/// A saved entry: its reference, content and tags.
#[derive(Debug, Clone)]
pub struct StoredKnowledgeEntry {
    pub entry_ref: KnowledgeEntryRef,
    pub content_markdown: String,
    pub tags: Vec<String>,
}

/// A saved entry as values.
pub struct StoredEntryView {
    pub entry_ref: KnowledgeEntryRef,
    pub content_markdown: Seq<char>,
    pub tags: Seq<String>,
}

impl View for StoredKnowledgeEntry {
    type V = StoredEntryView;

    open spec fn view(&self) -> StoredEntryView {
        StoredEntryView {
            entry_ref: self.entry_ref,
            content_markdown: self.content_markdown@,
            tags: self.tags@,
        }
    }
}

impl Keyed for StoredKnowledgeEntry {
    open spec fn key_of(v: StoredEntryView) -> Seq<char> {
        v.entry_ref.id@
    }

    fn key_str(&self) -> (r: &str) {
        self.entry_ref.id.as_str()
    }

    fn copy(&self) -> (r: Self) {
        StoredKnowledgeEntry {
            entry_ref: self.entry_ref.duplicate(),
            content_markdown: self.content_markdown.clone(),
            tags: copy_strings(&self.tags),
        }
    }
}

/// Whether every tag of `wanted` is among `tags`.
pub open spec fn has_all_tags(tags: Seq<String>, wanted: Seq<String>) -> bool {
    forall|i: int| 0 <= i < wanted.len() ==> has_tag(tags, (#[trigger] wanted[i])@)
}

/// Whether some tag of `tags` is `t`.
pub open spec fn has_tag(tags: Seq<String>, t: Seq<char>) -> bool {
    exists|j: int| 0 <= j < tags.len() && (#[trigger] tags[j])@ == t
}

/// Whether a saved entry matches a search for the lower-cased `text` and
/// `tags`: the text is empty or occurs in the lower-cased title or
/// content, and the entry has every tag.
pub open spec fn repo_match(text: Seq<char>, tags: Seq<String>) -> spec_fn(StoredEntryView) -> bool {
    |e: StoredEntryView|
        (text.len() == 0 || contains_seq(unicode_lowercase(e.entry_ref.title@), text) || contains_seq(
            unicode_lowercase(e.content_markdown),
            text,
        )) && has_all_tags(e.tags, tags)
}

/// The first `n` characters of `s`, or all of it when shorter.
pub open spec fn first_chars(s: Seq<char>, n: nat) -> Seq<char> {
    if s.len() <= n {
        s
    } else {
        s.take(n as int)
    }
}

/// The search result for a saved entry: score one for a non-empty query
/// text, else zero, and the first 120 characters of the content.
pub open spec fn repo_result(e: StoredEntryView, text: Seq<char>) -> SearchResultView {
    SearchResultView {
        entry: e.entry_ref,
        score: if text.len() == 0 {
            0
        } else {
            1
        },
        snippet: Some(first_chars(e.content_markdown, 120)),
        permission_required: false,
        confidentiality: None,
    }
}

/// The entry `e` once `update` is applied.
pub open spec fn updated_entry(e: StoredEntryView, update: KnowledgeEntryUpdate) -> StoredEntryView {
    StoredEntryView {
        entry_ref: KnowledgeEntryRef {
            title: match update.title {
                Some(t) => t,
                None => e.entry_ref.title,
            },
            source_uri: match update.source_uri {
                Some(u) => Some(u),
                None => e.entry_ref.source_uri,
            },
            ..e.entry_ref
        },
        content_markdown: match update.content_markdown {
            Some(c) => c@,
            None => e.content_markdown,
        },
        tags: match update.tags {
            Some(t) => t@,
            None => e.tags,
        },
    }
}

/// The entry a draft becomes as the `n`-th (from zero) of a repository.
pub open spec fn saved_entry(draft: KnowledgeEntryDraft, id: KnowledgeEntryId) -> StoredEntryView {
    StoredEntryView {
        entry_ref: KnowledgeEntryRef {
            id,
            title: draft.title,
            source_uri: draft.source_uri,
            artifact_id: draft.source_artifact_id,
            asset_id: draft.source_asset_id,
            created_at: draft.created_at,
        },
        content_markdown: draft.content_markdown@,
        tags: draft.tags@,
    }
}

/// Whether every entry is listed.
pub open spec fn any_entry() -> spec_fn(StoredEntryView) -> bool {
    |e: StoredEntryView| true
}

/// Whether `out` is what a search for `q` gives over the entries `store`:
/// the matching entries by id, at most `q.limit` of them, as results.
pub open spec fn is_search_outcome(store: Seq<StoredEntryView>, q: KnowledgeSearchQuery, out: Seq<SearchResultView>) -> bool {
    exists|l: Seq<StoredEntryView>|
        #[trigger] lists_matching::<StoredKnowledgeEntry>(store, repo_match(unicode_lowercase(q.text@), q.tags@), l)
            && out == l.take(
            if l.len() <= q.limit {
                l.len() as int
            } else {
                q.limit as int
            },
        ).map_values(|e: StoredEntryView| repo_result(e, unicode_lowercase(q.text@)))
}

/// Whether `out` is the references of all entries of `store`, by id.
pub open spec fn is_listing_outcome(store: Seq<StoredEntryView>, out: Seq<KnowledgeEntryRef>) -> bool {
    exists|l: Seq<StoredEntryView>|
        #[trigger] lists_matching::<StoredKnowledgeEntry>(store, any_entry(), l) && out == l.map_values(
            |e: StoredEntryView| e.entry_ref,
        )
}

/// Search outcomes are unique: two of them for the same entries and query
/// are equal.
pub proof fn law_search_outcome_unique(
    store: Seq<StoredEntryView>,
    q: KnowledgeSearchQuery,
    a: Seq<SearchResultView>,
    b: Seq<SearchResultView>,
)
    requires
        is_search_outcome(store, q, a),
        is_search_outcome(store, q, b),
    ensures
        a == b,
{
    let pred = repo_match(unicode_lowercase(q.text@), q.tags@);
    let la = choose|l: Seq<StoredEntryView>|
        #[trigger] lists_matching::<StoredKnowledgeEntry>(store, pred, l) && a == l.take(
            if l.len() <= q.limit {
                l.len() as int
            } else {
                q.limit as int
            },
        ).map_values(|e: StoredEntryView| repo_result(e, unicode_lowercase(q.text@)));
    let lb = choose|l: Seq<StoredEntryView>|
        #[trigger] lists_matching::<StoredKnowledgeEntry>(store, pred, l) && b == l.take(
            if l.len() <= q.limit {
                l.len() as int
            } else {
                q.limit as int
            },
        ).map_values(|e: StoredEntryView| repo_result(e, unicode_lowercase(q.text@)));
    law_listing_is_unique::<StoredKnowledgeEntry>(store, pred, la, lb);
}

/// Deterministic in-memory knowledge repository; entries are kept in the
/// order they were saved.
#[derive(Debug, Clone)]
pub struct MemoryKnowledgeRepository {
    entries: Vec<StoredKnowledgeEntry>,
}

impl View for MemoryKnowledgeRepository {
    type V = Seq<StoredEntryView>;

    closed spec fn view(&self) -> Seq<StoredEntryView> {
        views(self.entries@)
    }
}

impl Default for MemoryKnowledgeRepository {
    fn default() -> (r: Self)
        ensures
            r@.len() == 0,
            r.wf(),
    {
        Self::new()
    }
}

impl MemoryKnowledgeRepository {
    /// The number of entries.
    pub fn len(&self) -> (r: usize)
        ensures
            r == self@.len(),
    {
        self.entries.len()
    }

    /// The repository's invariant: entry `i` has the id
    /// `knowledge-entry-{i + 1}`.
    pub open spec fn wf(&self) -> bool {
        numbered::<StoredKnowledgeEntry>(self@, "knowledge-entry-"@)
    }

    /// An empty repository.
    pub fn new() -> (r: Self)
        ensures
            r@.len() == 0,
            r.wf(),
    {
        let r = MemoryKnowledgeRepository { entries: Vec::new() };
        assert(r@ =~= Seq::<StoredEntryView>::empty());
        r
    }

    /// Saves a draft under the next id and returns its reference.
    pub fn save_draft(&mut self, draft: KnowledgeEntryDraft) -> (r: Result<KnowledgeEntryRef, KnowledgeRepositoryError>)
        requires
            old(self).wf(),
            old(self)@.len() < usize::MAX,
        ensures
            final(self).wf(),
            r matches Ok(e) && e.id@ == "knowledge-entry-"@ + crate::text::decimal((old(self)@.len() + 1) as nat)
                && final(self)@ == old(self)@.push(saved_entry(draft, e.id)),
    {
        let ghost d = draft;
        let n = self.entries.len();
        let entry_ref = KnowledgeEntryRef {
            id: KnowledgeEntryId(numbered_id("knowledge-entry-", n)),
            title: draft.title,
            source_uri: draft.source_uri,
            artifact_id: draft.source_artifact_id,
            asset_id: draft.source_asset_id,
            created_at: draft.created_at,
        };
        let copy = entry_ref.duplicate();
        let ghost before = self@;
        self.entries.push(
            StoredKnowledgeEntry { entry_ref, content_markdown: draft.content_markdown, tags: draft.tags },
        );
        proof {
            assert(self@ =~= before.push(saved_entry(d, copy.id)));
            assert forall|i: int| 0 <= i < self@.len() implies StoredKnowledgeEntry::key_of(#[trigger] self@[i])
                == "knowledge-entry-"@ + crate::text::decimal((i + 1) as nat) by {
                if i < before.len() {
                    assert(self@[i] == before[i]);
                }
            }
        }
        Ok(copy)
    }

    /// The reference of the entry with `id`, if any.
    pub fn get_entry(&self, id: &KnowledgeEntryId) -> (r: Result<Option<KnowledgeEntryRef>, KnowledgeRepositoryError>)
        requires
            self.wf(),
        ensures
            r matches Ok(o) && match o {
                Some(e) => keyed::<StoredKnowledgeEntry>(self@, id@) matches Some(s) && s.entry_ref == e,
                None => !has_key::<StoredKnowledgeEntry>(self@, id@),
            },
    {
        match position_of(&self.entries, id.as_str()) {
            Some(i) => {
                proof {
                    lemma_numbered_distinct::<StoredKnowledgeEntry>(self@, "knowledge-entry-"@);
                    assert(self@[i as int] == self.entries@[i as int]@);
                    lemma_keyed_at::<StoredKnowledgeEntry>(self@, i as int);
                }
                Ok(Some(self.entries[i].entry_ref.duplicate()))
            },
            None => Ok(None),
        }
    }

    /// Whether `tags` holds every tag of `wanted`.
    pub(crate) fn has_tags(tags: &Vec<String>, wanted: &Vec<String>) -> (r: bool)
        ensures
            r == has_all_tags(tags@, wanted@),
    {
        let mut i: usize = 0;
        while i < wanted.len()
            invariant
                i <= wanted@.len(),
                forall|k: int| 0 <= k < i ==> has_tag(tags@, (#[trigger] wanted@[k])@),
            decreases wanted@.len() - i,
        {
            let mut found = false;
            let mut j: usize = 0;
            while j < tags.len()
                invariant
                    i < wanted@.len(),
                    j <= tags@.len(),
                    found ==> has_tag(tags@, wanted@[i as int]@),
                    !found ==> forall|m: int| 0 <= m < j ==> (#[trigger] tags@[m])@ != wanted@[i as int]@,
                decreases tags@.len() - j,
            {
                if str_eq(tags[j].as_str(), wanted[i].as_str()) {
                    found = true;
                }
                j = j + 1;
            }
            if !found {
                proof {
                    assert(!has_tag(tags@, wanted@[i as int]@));
                }
                return false;
            }
            i = i + 1;
        }
        true
    }

    /// The entries whose title or content holds the query text (compared in
    /// lower case) and that have all the query's tags, by id, at most
    /// `limit` of them.
    pub fn search(&self, query: &KnowledgeSearchQuery) -> (r: Result<Vec<KnowledgeSearchResult>, KnowledgeRepositoryError>)
        requires
            self.wf(),
        ensures
            r matches Ok(results) && is_search_outcome(self@, *query, views(results@)),
    {
        let text = to_lowercase(query.text.as_str());
        let text_chars = chars_of(text.as_str());
        let ghost t = text@;
        let ghost pred = repo_match(t, query.tags@);
        let mut wanted: Vec<bool> = Vec::new();
        let mut i: usize = 0;
        while i < self.entries.len()
            invariant
                i <= self.entries@.len(),
                wanted@.len() == i,
                t == unicode_lowercase(query.text@),
                text_chars@ == t,
                pred == repo_match(t, query.tags@),
                forall|k: int| 0 <= k < i ==> wanted@[k] == pred(#[trigger] self.entries@[k]@),
            decreases self.entries@.len() - i,
        {
            let e = &self.entries[i];
            let text_ok = if text_chars.len() == 0 {
                true
            } else {
                let title = to_lowercase(e.entry_ref.title.as_str());
                let title_chars = chars_of(title.as_str());
                if contains_chars(title_chars.as_slice(), text_chars.as_slice()) {
                    true
                } else {
                    let content = to_lowercase(e.content_markdown.as_str());
                    let content_chars = chars_of(content.as_str());
                    contains_chars(content_chars.as_slice(), text_chars.as_slice())
                }
            };
            let tags_ok = Self::has_tags(&e.tags, &query.tags);
            wanted.push(text_ok && tags_ok);
            i = i + 1;
        }
        proof {
            lemma_numbered_distinct::<StoredKnowledgeEntry>(self@, "knowledge-entry-"@);
        }
        let sorted = select_sorted(&self.entries, &wanted, Ghost(pred));
        let ghost l = views(sorted@);
        let count: usize = if sorted.len() <= query.limit {
            sorted.len()
        } else {
            query.limit
        };
        let mut results: Vec<KnowledgeSearchResult> = Vec::new();
        let mut k: usize = 0;
        while k < count
            invariant
                k <= count,
                count <= sorted@.len(),
                l == views(sorted@),
                t == unicode_lowercase(query.text@),
                text_chars@ == t,
                views(results@) == l.take(k as int).map_values(|e: StoredEntryView| repo_result(e, t)),
            decreases count - k,
        {
            let e = &sorted[k];
            let cs = chars_of(e.content_markdown.as_str());
            let end: usize = if cs.len() <= 120 {
                cs.len()
            } else {
                120
            };
            let snippet = string_from_range(cs.as_slice(), 0, end);
            let result = KnowledgeSearchResult {
                entry: e.entry_ref.duplicate(),
                score: if text_chars.len() == 0 {
                    0
                } else {
                    1
                },
                snippet: Some(snippet),
                permission_required: false,
                confidentiality: None,
            };
            let ghost before = views(results@);
            results.push(result);
            proof {
                assert(l[k as int] == sorted@[k as int]@);
                assert(cs@.subrange(0, end as int) =~= first_chars(l[k as int].content_markdown, 120));
                assert(views(results@) =~= before.push(repo_result(l[k as int], t)));
                assert(l.take(k + 1).map_values(|e: StoredEntryView| repo_result(e, t)) =~= l.take(
                    k as int,
                ).map_values(|e: StoredEntryView| repo_result(e, t)).push(repo_result(l[k as int], t)));
            }
            k = k + 1;
        }
        Ok(results)
    }

    /// The references of all entries, by id.
    pub fn list_entries(&self) -> (r: Result<Vec<KnowledgeEntryRef>, KnowledgeRepositoryError>)
        requires
            self.wf(),
        ensures
            r matches Ok(refs) && is_listing_outcome(self@, refs@),
    {
        let ghost pred = any_entry();
        let mut wanted: Vec<bool> = Vec::new();
        let mut i: usize = 0;
        while i < self.entries.len()
            invariant
                i <= self.entries@.len(),
                wanted@.len() == i,
                pred == any_entry(),
                forall|k: int| 0 <= k < i ==> wanted@[k] == pred(#[trigger] self.entries@[k]@),
            decreases self.entries@.len() - i,
        {
            wanted.push(true);
            i = i + 1;
        }
        proof {
            lemma_numbered_distinct::<StoredKnowledgeEntry>(self@, "knowledge-entry-"@);
        }
        let sorted = select_sorted(&self.entries, &wanted, Ghost(pred));
        let ghost l = views(sorted@);
        let mut refs: Vec<KnowledgeEntryRef> = Vec::new();
        let mut k: usize = 0;
        while k < sorted.len()
            invariant
                k <= sorted@.len(),
                l == views(sorted@),
                refs@ == l.take(k as int).map_values(|e: StoredEntryView| e.entry_ref),
            decreases sorted@.len() - k,
        {
            refs.push(sorted[k].entry_ref.duplicate());
            proof {
                assert(l[k as int] == sorted@[k as int]@);
                assert(l.take(k + 1).map_values(|e: StoredEntryView| e.entry_ref) =~= l.take(k as int).map_values(
                    |e: StoredEntryView| e.entry_ref,
                ).push(l[k as int].entry_ref));
            }
            k = k + 1;
        }
        proof {
            assert(l.take(l.len() as int) =~= l);
        }
        Ok(refs)
    }

    /// Applies `update` to the entry with `id` and returns its new
    /// reference; metadata is not kept by this repository.
    pub fn update_entry(&mut self, id: &KnowledgeEntryId, update: KnowledgeEntryUpdate) -> (r: Result<
        KnowledgeEntryRef,
        KnowledgeRepositoryError,
    >)
        requires
            old(self).wf(),
        ensures
            final(self).wf(),
            !has_key::<StoredKnowledgeEntry>(old(self)@, id@) ==> (r matches Err(
                KnowledgeRepositoryError::NotFound(m),
            ) && m@ == id@) && final(self)@ == old(self)@,
            has_key::<StoredKnowledgeEntry>(old(self)@, id@) ==> (r matches Ok(e) && e == updated_entry(
                old(self)@[key_index::<StoredKnowledgeEntry>(old(self)@, id@)],
                update,
            ).entry_ref) && final(self)@ == old(self)@.update(
                key_index::<StoredKnowledgeEntry>(old(self)@, id@),
                updated_entry(old(self)@[key_index::<StoredKnowledgeEntry>(old(self)@, id@)], update),
            ),
    {
        let i = match position_of(&self.entries, id.as_str()) {
            Some(i) => i,
            None => {
                return Err(KnowledgeRepositoryError::NotFound(id.to_string()));
            },
        };
        let ghost before = self@;
        let ghost u = update;
        proof {
            lemma_numbered_distinct::<StoredKnowledgeEntry>(before, "knowledge-entry-"@);
            assert(before[i as int] == self.entries@[i as int]@);
            lemma_keyed_at::<StoredKnowledgeEntry>(before, i as int);
        }
        let mut stored = self.entries[i].copy();
        match update.title {
            Some(title) => {
                stored.entry_ref.title = title;
            },
            None => {},
        }
        match update.content_markdown {
            Some(content) => {
                stored.content_markdown = content;
            },
            None => {},
        }
        match update.tags {
            Some(tags) => {
                stored.tags = tags;
            },
            None => {},
        }
        match update.source_uri {
            Some(uri) => {
                stored.entry_ref.source_uri = Some(uri);
            },
            None => {},
        }
        let result = stored.entry_ref.duplicate();
        proof {
            assert(stored@ == updated_entry(before[i as int], u));
        }
        self.entries.set(i, stored);
        proof {
            assert(self@ =~= before.update(i as int, updated_entry(before[i as int], u)));
            assert forall|k: int| 0 <= k < self@.len() implies StoredKnowledgeEntry::key_of(#[trigger] self@[k])
                == "knowledge-entry-"@ + crate::text::decimal((k + 1) as nat) by {
                if k != i {
                    assert(self@[k] == before[k]);
                }
            }
        }
        Ok(result)
    }
}

impl Keyed for KnowledgeSearchResult {
    open spec fn key_of(v: SearchResultView) -> Seq<char> {
        v.entry.id@
    }

    fn key_str(&self) -> (r: &str) {
        self.entry.id.as_str()
    }

    fn copy(&self) -> (r: Self) {
        KnowledgeSearchResult {
            entry: self.entry.duplicate(),
            score: self.score,
            snippet: copy_opt_string(&self.snippet),
            permission_required: self.permission_required,
            confidentiality: copy_opt_string(&self.confidentiality),
        }
    }
}

/// Whether result `a` ranks above result `b`: a higher score, then a
/// smaller id.
pub open spec fn ranks_above(a: SearchResultView, b: SearchResultView) -> bool {
    a.score > b.score || (a.score == b.score && text_lt(a.entry.id@, b.entry.id@))
}

/// Whether results are listed from the highest rank down.
pub open spec fn ranked(s: Seq<SearchResultView>) -> bool {
    forall|i: int, j: int| 0 <= i < j < s.len() ==> ranks_above(#[trigger] s[i], #[trigger] s[j])
}

proof fn lemma_ranks_transitive(a: SearchResultView, b: SearchResultView, c: SearchResultView)
    requires
        ranks_above(a, b),
        ranks_above(b, c),
    ensures
        ranks_above(a, c),
{
    if a.score == b.score && b.score == c.score {
        lemma_text_lt_transitive(a.entry.id@, b.entry.id@, c.entry.id@);
    }
}

proof fn lemma_ranks_irreflexive(a: SearchResultView)
    ensures
        !ranks_above(a, a),
{
    lemma_text_lt_irreflexive(a.entry.id@);
}

proof fn lemma_ranks_total(a: SearchResultView, b: SearchResultView)
    requires
        a.entry.id@ != b.entry.id@,
    ensures
        ranks_above(a, b) || ranks_above(b, a),
{
    lemma_text_lt_total(a.entry.id@, b.entry.id@);
}

/// Whether result `a` ranks above result `b`.
fn rank_above(a: &KnowledgeSearchResult, b: &KnowledgeSearchResult) -> (r: bool)
    ensures
        r == ranks_above(a@, b@),
{
    if a.score != b.score {
        a.score > b.score
    } else {
        let x = chars_of(a.entry.id.as_str());
        let y = chars_of(b.entry.id.as_str());
        text_less(x.as_slice(), y.as_slice())
    }
}

/// The first position of ranked `v` whose result does not rank above `x`.
fn ranked_position(v: &Vec<KnowledgeSearchResult>, x: &KnowledgeSearchResult) -> (r: usize)
    ensures
        r <= v@.len(),
        forall|k: int| 0 <= k < r ==> ranks_above((#[trigger] v@[k])@, x@),
        r < v@.len() ==> !ranks_above(v@[r as int]@, x@),
{
    let mut p: usize = 0;
    while p < v.len()
        invariant
            p <= v@.len(),
            forall|k: int| 0 <= k < p ==> ranks_above((#[trigger] v@[k])@, x@),
        decreases v@.len() - p,
    {
        if !rank_above(&v[p], x) {
            return p;
        }
        p = p + 1;
    }
    p
}

/// Inserts `x`, whose id is new, at its place among ranked results.
fn insert_ranked(v: &mut Vec<KnowledgeSearchResult>, x: KnowledgeSearchResult)
    requires
        ranked(views(old(v)@)),
        forall|i: int| 0 <= i < old(v)@.len() ==> (#[trigger] old(v)@[i]).entry.id@ != x.entry.id@,
    ensures
        ranked(views(final(v)@)),
        forall|y: SearchResultView| #[trigger]
            views(final(v)@).contains(y) <==> (views(old(v)@).contains(y) || y == x@),
{
    let ghost before = views(v@);
    let ghost xv = x@;
    let p = ranked_position(v, &x);
    v.insert(p, x);
    proof {
        let after = views(v@);
        assert(after =~= before.insert(p as int, xv));
        assert forall|i: int| 0 <= i < p implies ranks_above(#[trigger] before[i], xv) by {
            assert(before[i] == old(v)@[i]@);
        }
        if p < before.len() {
            assert(before[p as int] == old(v)@[p as int]@);
            lemma_ranks_total(before[p as int], xv);
        }
        assert forall|m: int| p <= m < before.len() implies ranks_above(xv, #[trigger] before[m]) by {
            assert(before[m] == old(v)@[m]@);
            if m > p {
                lemma_ranks_transitive(xv, before[p as int], before[m]);
            }
        }
        assert forall|i: int, j: int| 0 <= i < j < after.len() implies ranks_above(
            #[trigger] after[i],
            #[trigger] after[j],
        ) by {
            if j < p {
                assert(after[i] == before[i] && after[j] == before[j]);
            } else if j == p {
                assert(after[i] == before[i]);
            } else if i == p {
                assert(after[j] == before[j - 1]);
            } else if i < p {
                assert(after[i] == before[i] && after[j] == before[j - 1]);
                lemma_ranks_transitive(before[i], xv, before[j - 1]);
            } else {
                assert(after[i] == before[i - 1] && after[j] == before[j - 1]);
            }
        }
        assert forall|y: SearchResultView| #[trigger] after.contains(y) <==> (before.contains(y) || y == xv) by {
            if after.contains(y) {
                let i = choose|i: int| 0 <= i < after.len() && after[i] == y;
                if i < p {
                    assert(before[i] == y);
                } else if i > p {
                    assert(before[i - 1] == y);
                }
            }
            if before.contains(y) {
                let i = choose|i: int| 0 <= i < before.len() && before[i] == y;
                if i < p {
                    assert(after[i] == y);
                } else {
                    assert(after[i + 1] == y);
                }
            }
            if y == xv {
                assert(after[p as int] == y);
            }
        }
    }
}

/// The results of `items`, whose ids are distinct, ranked: by score from
/// the highest, then by id.
pub fn rank_results(items: Vec<KnowledgeSearchResult>) -> (r: Vec<KnowledgeSearchResult>)
    requires
        forall|i: int, j: int|
            0 <= i < j < items@.len() ==> (#[trigger] items@[i]).entry.id@ != (#[trigger] items@[j]).entry.id@,
    ensures
        ranked(views(r@)),
        forall|y: SearchResultView| #[trigger] views(r@).contains(y) <==> views(items@).contains(y),
{
    let ghost iv = views(items@);
    let mut out: Vec<KnowledgeSearchResult> = Vec::new();
    let n: usize = items.len();
    let mut i: usize = 0;
    while i < n
        invariant
            n == items@.len(),
            i <= n,
            iv == views(items@),
            forall|a: int, b: int|
                0 <= a < b < items@.len() ==> (#[trigger] items@[a]).entry.id@ != (#[trigger] items@[b]).entry.id@,
            ranked(views(out@)),
            forall|y: SearchResultView| #[trigger]
                views(out@).contains(y) <==> (exists|k: int| 0 <= k < i && #[trigger] iv[k] == y),
        decreases n - i,
    {
        let c = items[i].copy();
        proof {
            assert(iv[i as int] == items@[i as int]@);
            assert forall|m: int| 0 <= m < out@.len() implies (#[trigger] out@[m]).entry.id@ != c.entry.id@ by {
                assert(views(out@)[m] == out@[m]@);
                assert(views(out@).contains(views(out@)[m]));
                let k = choose|k: int| 0 <= k < i && #[trigger] iv[k] == views(out@)[m];
                assert(iv[k] == items@[k]@);
            }
        }
        let ghost before = views(out@);
        insert_ranked(&mut out, c);
        proof {
            assert forall|y: SearchResultView| #[trigger]
                views(out@).contains(y) <==> (exists|k: int| 0 <= k < i + 1 && #[trigger] iv[k] == y) by {
                if y == iv[i as int] {
                    assert(iv[i as int] == y);
                }
                if exists|k: int| 0 <= k < i + 1 && #[trigger] iv[k] == y {
                    let k = choose|k: int| 0 <= k < i + 1 && #[trigger] iv[k] == y;
                    if k < i {
                        assert(before.contains(y));
                    }
                }
            }
        }
        i = i + 1;
    }
    proof {
        assert forall|y: SearchResultView| #[trigger] views(out@).contains(y) <==> iv.contains(y) by {
            if iv.contains(y) {
                let k = choose|k: int| 0 <= k < iv.len() && iv[k] == y;
                assert(iv[k] == y);
            }
        }
    }
    out
}

/// Two ranked listings of the same results are the same listing.
pub proof fn law_ranked_listing_unique(a: Seq<SearchResultView>, b: Seq<SearchResultView>)
    requires
        ranked(a),
        ranked(b),
        forall|x: SearchResultView| a.contains(x) <==> b.contains(x),
    ensures
        a == b,
    decreases a.len(),
{
    if a.len() == 0 {
        if b.len() > 0 {
            assert(b.contains(b[0]));
        }
        assert(a =~= b);
    } else {
        assert(a.contains(a[0]));
        assert(b.contains(b[0]));
        let j = choose|j: int| 0 <= j < b.len() && b[j] == a[0];
        let i = choose|i: int| 0 <= i < a.len() && a[i] == b[0];
        if j > 0 {
            assert(ranks_above(b[0], b[j]));
            if i > 0 {
                assert(ranks_above(a[0], a[i]));
                lemma_ranks_transitive(a[0], b[0], a[0]);
            }
            lemma_ranks_irreflexive(a[0]);
        }
        assert(a[0] == b[0]);
        let ra = a.drop_first();
        let rb = b.drop_first();
        assert forall|x: SearchResultView| ra.contains(x) <==> rb.contains(x) by {
            if ra.contains(x) {
                let k = choose|k: int| 0 <= k < ra.len() && ra[k] == x;
                assert(a[k + 1] == x);
                assert(a.contains(x));
                assert(ranks_above(a[0], a[k + 1]));
                lemma_ranks_irreflexive(x);
                let m = choose|m: int| 0 <= m < b.len() && b[m] == x;
                assert(m != 0);
                assert(rb[m - 1] == x);
            }
            if rb.contains(x) {
                let k = choose|k: int| 0 <= k < rb.len() && rb[k] == x;
                assert(b[k + 1] == x);
                assert(b.contains(x));
                assert(ranks_above(b[0], b[k + 1]));
                lemma_ranks_irreflexive(x);
                let m = choose|m: int| 0 <= m < a.len() && a[m] == x;
                assert(m != 0);
                assert(ra[m - 1] == x);
            }
        }
        assert forall|p: int, q: int| 0 <= p < q < ra.len() implies ranks_above(#[trigger] ra[p], #[trigger] ra[q]) by {
            assert(ra[p] == a[p + 1] && ra[q] == a[q + 1]);
        }
        assert forall|p: int, q: int| 0 <= p < q < rb.len() implies ranks_above(#[trigger] rb[p], #[trigger] rb[q]) by {
            assert(rb[p] == b[p + 1] && rb[q] == b[q + 1]);
        }
        law_ranked_listing_unique(ra, rb);
        assert(a =~= seq![a[0]] + ra);
        assert(b =~= seq![b[0]] + rb);
    }
}

} // verus!
