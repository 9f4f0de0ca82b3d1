//! Knowledge entity: entry and object-graph identifiers, search queries and
//! their defaults, query terms, draft validation, answer-cache versions and
//! freshness, actors, bindings and the engine's access boundary.
use crate::text::{
    ascii_lower, ascii_lower_chars, is_whitespace, owned, string_from_chars,
    unicode_white_space, IntoText,
};
use vstd::prelude::*;

verus! {

/// Action kind for searching knowledge.
pub const KNOWLEDGE_SEARCH_ACTION_KIND: &'static str = "knowledge.search";

/// Action kind for reading one entry.
pub const KNOWLEDGE_GET_ENTRY_ACTION_KIND: &'static str = "knowledge.get_entry";

/// Action kind for drafting an entry.
pub const KNOWLEDGE_CREATE_DRAFT_ACTION_KIND: &'static str = "knowledge.create_draft";

/// Action kind for saving an entry.
pub const KNOWLEDGE_SAVE_ENTRY_ACTION_KIND: &'static str = "knowledge.save_entry";

/// Action kind for updating an entry.
pub const KNOWLEDGE_UPDATE_ENTRY_ACTION_KIND: &'static str = "knowledge.update_entry";

/// Unique identifier for a knowledge entry.
#[derive(Debug, Clone, PartialEq, Eq, Hash)]
pub struct KnowledgeEntryId(pub String);

impl View for KnowledgeEntryId {
    type V = Seq<char>;

    open spec fn view(&self) -> Seq<char> {
        self.0@
    }
}

impl IntoText for KnowledgeEntryId {
    open spec fn text(&self) -> Seq<char> {
        self@
    }

    fn into_text(self) -> (r: String) {
        self.0
    }
}

impl KnowledgeEntryId {
    /// Builds the id from text.
    pub fn from<T: IntoText>(s: T) -> (r: KnowledgeEntryId)
        ensures
            r@ == s.text(),
    {
        KnowledgeEntryId(s.into_text())
    }

    /// The id as it is displayed: its text.
    pub fn to_string(&self) -> (r: String)
        ensures
            r@ == self@,
    {
        self.0.clone()
    }

    /// The id as text.
    pub fn as_str(&self) -> (r: &str)
        ensures
            r@ == self@,
    {
        self.0.as_str()
    }

    /// Whether two ids hold the same text.
    pub fn same(&self, other: &KnowledgeEntryId) -> (r: bool)
        ensures
            r == (self@ == other@),
    {
        self.0 == other.0
    }

    /// An equal copy of the id.
    pub fn duplicate(&self) -> (r: KnowledgeEntryId)
        ensures
            r == *self,
    {
        KnowledgeEntryId(self.0.clone())
    }
}

/// Unique identifier for a question ledger entry.
#[derive(Debug, Clone, PartialEq, Eq, Hash)]
pub struct QuestionLedgerEntryId(pub String);

impl View for QuestionLedgerEntryId {
    type V = Seq<char>;

    open spec fn view(&self) -> Seq<char> {
        self.0@
    }
}

impl IntoText for QuestionLedgerEntryId {
    open spec fn text(&self) -> Seq<char> {
        self@
    }

    fn into_text(self) -> (r: String) {
        self.0
    }
}

impl QuestionLedgerEntryId {
    /// Builds the id from text.
    pub fn from<T: IntoText>(s: T) -> (r: QuestionLedgerEntryId)
        ensures
            r@ == s.text(),
    {
        QuestionLedgerEntryId(s.into_text())
    }

    /// The id as it is displayed: its text.
    pub fn to_string(&self) -> (r: String)
        ensures
            r@ == self@,
    {
        self.0.clone()
    }

    /// The id as text.
    pub fn as_str(&self) -> (r: &str)
        ensures
            r@ == self@,
    {
        self.0.as_str()
    }

    /// Whether two ids hold the same text.
    pub fn same(&self, other: &QuestionLedgerEntryId) -> (r: bool)
        ensures
            r == (self@ == other@),
    {
        self.0 == other.0
    }

    /// An equal copy of the id.
    pub fn duplicate(&self) -> (r: QuestionLedgerEntryId)
        ensures
            r == *self,
    {
        QuestionLedgerEntryId(self.0.clone())
    }
}

/// Identifier of a captured browser snapshot.
#[derive(Debug, Clone, PartialEq, Eq, Hash)]
pub struct BrowserSnapshotId(pub String);

impl View for BrowserSnapshotId {
    type V = Seq<char>;

    open spec fn view(&self) -> Seq<char> {
        self.0@
    }
}

impl IntoText for BrowserSnapshotId {
    open spec fn text(&self) -> Seq<char> {
        self@
    }

    fn into_text(self) -> (r: String) {
        self.0
    }
}

impl BrowserSnapshotId {
    /// Builds the id from text.
    pub fn from<T: IntoText>(s: T) -> (r: BrowserSnapshotId)
        ensures
            r@ == s.text(),
    {
        BrowserSnapshotId(s.into_text())
    }

    /// The id as it is displayed: its text.
    pub fn to_string(&self) -> (r: String)
        ensures
            r@ == self@,
    {
        self.0.clone()
    }

    /// The id as text.
    pub fn as_str(&self) -> (r: &str)
        ensures
            r@ == self@,
    {
        self.0.as_str()
    }

    /// Whether two ids hold the same text.
    pub fn same(&self, other: &BrowserSnapshotId) -> (r: bool)
        ensures
            r == (self@ == other@),
    {
        self.0 == other.0
    }

    /// An equal copy of the id.
    pub fn duplicate(&self) -> (r: BrowserSnapshotId)
        ensures
            r == *self,
    {
        BrowserSnapshotId(self.0.clone())
    }
}

/// Identifier of a citation evidence record.
#[derive(Debug, Clone, PartialEq, Eq, Hash)]
pub struct EvidenceRefId(pub String);

impl View for EvidenceRefId {
    type V = Seq<char>;

    open spec fn view(&self) -> Seq<char> {
        self.0@
    }
}

impl IntoText for EvidenceRefId {
    open spec fn text(&self) -> Seq<char> {
        self@
    }

    fn into_text(self) -> (r: String) {
        self.0
    }
}

impl EvidenceRefId {
    /// Builds the id from text.
    pub fn from<T: IntoText>(s: T) -> (r: EvidenceRefId)
        ensures
            r@ == s.text(),
    {
        EvidenceRefId(s.into_text())
    }

    /// The id as it is displayed: its text.
    pub fn to_string(&self) -> (r: String)
        ensures
            r@ == self@,
    {
        self.0.clone()
    }

    /// The id as text.
    pub fn as_str(&self) -> (r: &str)
        ensures
            r@ == self@,
    {
        self.0.as_str()
    }

    /// Whether two ids hold the same text.
    pub fn same(&self, other: &EvidenceRefId) -> (r: bool)
        ensures
            r == (self@ == other@),
    {
        self.0 == other.0
    }

    /// An equal copy of the id.
    pub fn duplicate(&self) -> (r: EvidenceRefId)
        ensures
            r == *self,
    {
        EvidenceRefId(self.0.clone())
    }
}

/// Unique identifier for an answer cache package.
#[derive(Debug, Clone, PartialEq, Eq, Hash)]
pub struct AnswerCachePackageId(pub String);

impl View for AnswerCachePackageId {
    type V = Seq<char>;

    open spec fn view(&self) -> Seq<char> {
        self.0@
    }
}

impl IntoText for AnswerCachePackageId {
    open spec fn text(&self) -> Seq<char> {
        self@
    }

    fn into_text(self) -> (r: String) {
        self.0
    }
}

impl AnswerCachePackageId {
    /// Builds the id from text.
    pub fn from<T: IntoText>(s: T) -> (r: AnswerCachePackageId)
        ensures
            r@ == s.text(),
    {
        AnswerCachePackageId(s.into_text())
    }

    /// The id as it is displayed: its text.
    pub fn to_string(&self) -> (r: String)
        ensures
            r@ == self@,
    {
        self.0.clone()
    }

    /// The id as text.
    pub fn as_str(&self) -> (r: &str)
        ensures
            r@ == self@,
    {
        self.0.as_str()
    }

    /// Whether two ids hold the same text.
    pub fn same(&self, other: &AnswerCachePackageId) -> (r: bool)
        ensures
            r == (self@ == other@),
    {
        self.0 == other.0
    }

    /// An equal copy of the id.
    pub fn duplicate(&self) -> (r: AnswerCachePackageId)
        ensures
            r == *self,
    {
        AnswerCachePackageId(self.0.clone())
    }
}

/// Stable identifier for an object in the structured object graph.
#[derive(Debug, Clone, PartialEq, Eq, Hash)]
pub struct KnowledgeObjectId(pub String);

impl View for KnowledgeObjectId {
    type V = Seq<char>;

    open spec fn view(&self) -> Seq<char> {
        self.0@
    }
}

impl IntoText for KnowledgeObjectId {
    open spec fn text(&self) -> Seq<char> {
        self@
    }

    fn into_text(self) -> (r: String) {
        self.0
    }
}

impl KnowledgeObjectId {
    /// Builds the id from text.
    pub fn from<T: IntoText>(s: T) -> (r: KnowledgeObjectId)
        ensures
            r@ == s.text(),
    {
        KnowledgeObjectId(s.into_text())
    }

    /// The id as it is displayed: its text.
    pub fn to_string(&self) -> (r: String)
        ensures
            r@ == self@,
    {
        self.0.clone()
    }

    /// The id as text.
    pub fn as_str(&self) -> (r: &str)
        ensures
            r@ == self@,
    {
        self.0.as_str()
    }

    /// Whether two ids hold the same text.
    pub fn same(&self, other: &KnowledgeObjectId) -> (r: bool)
        ensures
            r == (self@ == other@),
    {
        self.0 == other.0
    }

    /// An equal copy of the id.
    pub fn duplicate(&self) -> (r: KnowledgeObjectId)
        ensures
            r == *self,
    {
        KnowledgeObjectId(self.0.clone())
    }
}

/// Identifier of a relation between objects.
#[derive(Debug, Clone, PartialEq, Eq, Hash)]
pub struct KnowledgeRelationId(pub String);

impl View for KnowledgeRelationId {
    type V = Seq<char>;

    open spec fn view(&self) -> Seq<char> {
        self.0@
    }
}

impl IntoText for KnowledgeRelationId {
    open spec fn text(&self) -> Seq<char> {
        self@
    }

    fn into_text(self) -> (r: String) {
        self.0
    }
}

impl KnowledgeRelationId {
    /// Builds the id from text.
    pub fn from<T: IntoText>(s: T) -> (r: KnowledgeRelationId)
        ensures
            r@ == s.text(),
    {
        KnowledgeRelationId(s.into_text())
    }

    /// The id as it is displayed: its text.
    pub fn to_string(&self) -> (r: String)
        ensures
            r@ == self@,
    {
        self.0.clone()
    }

    /// The id as text.
    pub fn as_str(&self) -> (r: &str)
        ensures
            r@ == self@,
    {
        self.0.as_str()
    }

    /// Whether two ids hold the same text.
    pub fn same(&self, other: &KnowledgeRelationId) -> (r: bool)
        ensures
            r == (self@ == other@),
    {
        self.0 == other.0
    }

    /// An equal copy of the id.
    pub fn duplicate(&self) -> (r: KnowledgeRelationId)
        ensures
            r == *self,
    {
        KnowledgeRelationId(self.0.clone())
    }
}

/// Identifier of an object attribute.
#[derive(Debug, Clone, PartialEq, Eq, Hash)]
pub struct KnowledgeAttributeId(pub String);

impl View for KnowledgeAttributeId {
    type V = Seq<char>;

    open spec fn view(&self) -> Seq<char> {
        self.0@
    }
}

impl IntoText for KnowledgeAttributeId {
    open spec fn text(&self) -> Seq<char> {
        self@
    }

    fn into_text(self) -> (r: String) {
        self.0
    }
}

impl KnowledgeAttributeId {
    /// Builds the id from text.
    pub fn from<T: IntoText>(s: T) -> (r: KnowledgeAttributeId)
        ensures
            r@ == s.text(),
    {
        KnowledgeAttributeId(s.into_text())
    }

    /// The id as it is displayed: its text.
    pub fn to_string(&self) -> (r: String)
        ensures
            r@ == self@,
    {
        self.0.clone()
    }

    /// The id as text.
    pub fn as_str(&self) -> (r: &str)
        ensures
            r@ == self@,
    {
        self.0.as_str()
    }

    /// Whether two ids hold the same text.
    pub fn same(&self, other: &KnowledgeAttributeId) -> (r: bool)
        ensures
            r == (self@ == other@),
    {
        self.0 == other.0
    }

    /// An equal copy of the id.
    pub fn duplicate(&self) -> (r: KnowledgeAttributeId)
        ensures
            r == *self,
    {
        KnowledgeAttributeId(self.0.clone())
    }
}

/// Identifier of a claim.
#[derive(Debug, Clone, PartialEq, Eq, Hash)]
pub struct KnowledgeClaimId(pub String);

impl View for KnowledgeClaimId {
    type V = Seq<char>;

    open spec fn view(&self) -> Seq<char> {
        self.0@
    }
}

impl IntoText for KnowledgeClaimId {
    open spec fn text(&self) -> Seq<char> {
        self@
    }

    fn into_text(self) -> (r: String) {
        self.0
    }
}

impl KnowledgeClaimId {
    /// Builds the id from text.
    pub fn from<T: IntoText>(s: T) -> (r: KnowledgeClaimId)
        ensures
            r@ == s.text(),
    {
        KnowledgeClaimId(s.into_text())
    }

    /// The id as it is displayed: its text.
    pub fn to_string(&self) -> (r: String)
        ensures
            r@ == self@,
    {
        self.0.clone()
    }

    /// The id as text.
    pub fn as_str(&self) -> (r: &str)
        ensures
            r@ == self@,
    {
        self.0.as_str()
    }

    /// Whether two ids hold the same text.
    pub fn same(&self, other: &KnowledgeClaimId) -> (r: bool)
        ensures
            r == (self@ == other@),
    {
        self.0 == other.0
    }

    /// An equal copy of the id.
    pub fn duplicate(&self) -> (r: KnowledgeClaimId)
        ensures
            r == *self,
    {
        KnowledgeClaimId(self.0.clone())
    }
}

/// Identifier of an asset binding.
#[derive(Debug, Clone, PartialEq, Eq, Hash)]
pub struct KnowledgeAssetBindingId(pub String);

impl View for KnowledgeAssetBindingId {
    type V = Seq<char>;

    open spec fn view(&self) -> Seq<char> {
        self.0@
    }
}

impl IntoText for KnowledgeAssetBindingId {
    open spec fn text(&self) -> Seq<char> {
        self@
    }

    fn into_text(self) -> (r: String) {
        self.0
    }
}

impl KnowledgeAssetBindingId {
    /// Builds the id from text.
    pub fn from<T: IntoText>(s: T) -> (r: KnowledgeAssetBindingId)
        ensures
            r@ == s.text(),
    {
        KnowledgeAssetBindingId(s.into_text())
    }

    /// The id as it is displayed: its text.
    pub fn to_string(&self) -> (r: String)
        ensures
            r@ == self@,
    {
        self.0.clone()
    }

    /// The id as text.
    pub fn as_str(&self) -> (r: &str)
        ensures
            r@ == self@,
    {
        self.0.as_str()
    }

    /// Whether two ids hold the same text.
    pub fn same(&self, other: &KnowledgeAssetBindingId) -> (r: bool)
        ensures
            r == (self@ == other@),
    {
        self.0 == other.0
    }

    /// An equal copy of the id.
    pub fn duplicate(&self) -> (r: KnowledgeAssetBindingId)
        ensures
            r == *self,
    {
        KnowledgeAssetBindingId(self.0.clone())
    }
}

/// Identifier of a knowledge event.
#[derive(Debug, Clone, PartialEq, Eq, Hash)]
pub struct KnowledgeEventId(pub String);

impl View for KnowledgeEventId {
    type V = Seq<char>;

    open spec fn view(&self) -> Seq<char> {
        self.0@
    }
}

impl IntoText for KnowledgeEventId {
    open spec fn text(&self) -> Seq<char> {
        self@
    }

    fn into_text(self) -> (r: String) {
        self.0
    }
}

impl KnowledgeEventId {
    /// Builds the id from text.
    pub fn from<T: IntoText>(s: T) -> (r: KnowledgeEventId)
        ensures
            r@ == s.text(),
    {
        KnowledgeEventId(s.into_text())
    }

    /// The id as it is displayed: its text.
    pub fn to_string(&self) -> (r: String)
        ensures
            r@ == self@,
    {
        self.0.clone()
    }

    /// The id as text.
    pub fn as_str(&self) -> (r: &str)
        ensures
            r@ == self@,
    {
        self.0.as_str()
    }

    /// Whether two ids hold the same text.
    pub fn same(&self, other: &KnowledgeEventId) -> (r: bool)
        ensures
            r == (self@ == other@),
    {
        self.0 == other.0
    }

    /// An equal copy of the id.
    pub fn duplicate(&self) -> (r: KnowledgeEventId)
        ensures
            r == *self,
    {
        KnowledgeEventId(self.0.clone())
    }
}

/// Identifier of an audit record.
#[derive(Debug, Clone, PartialEq, Eq, Hash)]
pub struct KnowledgeAuditId(pub String);

impl View for KnowledgeAuditId {
    type V = Seq<char>;

    open spec fn view(&self) -> Seq<char> {
        self.0@
    }
}

impl IntoText for KnowledgeAuditId {
    open spec fn text(&self) -> Seq<char> {
        self@
    }

    fn into_text(self) -> (r: String) {
        self.0
    }
}

impl KnowledgeAuditId {
    /// Builds the id from text.
    pub fn from<T: IntoText>(s: T) -> (r: KnowledgeAuditId)
        ensures
            r@ == s.text(),
    {
        KnowledgeAuditId(s.into_text())
    }

    /// The id as it is displayed: its text.
    pub fn to_string(&self) -> (r: String)
        ensures
            r@ == self@,
    {
        self.0.clone()
    }

    /// The id as text.
    pub fn as_str(&self) -> (r: &str)
        ensures
            r@ == self@,
    {
        self.0.as_str()
    }

    /// Whether two ids hold the same text.
    pub fn same(&self, other: &KnowledgeAuditId) -> (r: bool)
        ensures
            r == (self@ == other@),
    {
        self.0 == other.0
    }

    /// An equal copy of the id.
    pub fn duplicate(&self) -> (r: KnowledgeAuditId)
        ensures
            r == *self,
    {
        KnowledgeAuditId(self.0.clone())
    }
}

/// Identifier of a knowledge transaction.
#[derive(Debug, Clone, PartialEq, Eq, Hash)]
pub struct KnowledgeTransactionId(pub String);

impl View for KnowledgeTransactionId {
    type V = Seq<char>;

    open spec fn view(&self) -> Seq<char> {
        self.0@
    }
}

impl IntoText for KnowledgeTransactionId {
    open spec fn text(&self) -> Seq<char> {
        self@
    }

    fn into_text(self) -> (r: String) {
        self.0
    }
}

impl KnowledgeTransactionId {
    /// Builds the id from text.
    pub fn from<T: IntoText>(s: T) -> (r: KnowledgeTransactionId)
        ensures
            r@ == s.text(),
    {
        KnowledgeTransactionId(s.into_text())
    }

    /// The id as it is displayed: its text.
    pub fn to_string(&self) -> (r: String)
        ensures
            r@ == self@,
    {
        self.0.clone()
    }

    /// The id as text.
    pub fn as_str(&self) -> (r: &str)
        ensures
            r@ == self@,
    {
        self.0.as_str()
    }

    /// Whether two ids hold the same text.
    pub fn same(&self, other: &KnowledgeTransactionId) -> (r: bool)
        ensures
            r == (self@ == other@),
    {
        self.0 == other.0
    }

    /// An equal copy of the id.
    pub fn duplicate(&self) -> (r: KnowledgeTransactionId)
        ensures
            r == *self,
    {
        KnowledgeTransactionId(self.0.clone())
    }
}

/// Search query for knowledge entries.
#[derive(Debug, Clone, PartialEq, Eq)]
pub struct KnowledgeSearchQuery {
    pub text: String,
    pub tags: Vec<String>,
    pub limit: usize,
}

impl KnowledgeSearchQuery {
    /// A query for `text` with no tags and a limit of 10.
    pub fn new<T: IntoText>(text: T) -> (r: Self)
        ensures
            r.text@ == text.text(),
            r.tags@.len() == 0,
            r.limit == 10,
    {
        KnowledgeSearchQuery { text: text.into_text(), tags: Vec::new(), limit: 10 }
    }

    /// The same query requiring `tags`.
    pub fn with_tags(self, tags: Vec<String>) -> (r: Self)
        ensures
            r.text == self.text,
            r.tags@ == tags@,
            r.limit == self.limit,
    {
        KnowledgeSearchQuery { tags, ..self }
    }

    /// The same query with another limit.
    pub fn with_limit(self, limit: usize) -> (r: Self)
        ensures
            r.text == self.text,
            r.tags@ == self.tags@,
            r.limit == limit,
    {
        KnowledgeSearchQuery { limit, ..self }
    }
}

/// Full-text query boundary for knowledge indexes.
#[derive(Debug, Clone, PartialEq, Eq)]
pub struct KnowledgeFullTextQuery {
    pub text: String,
    pub tags: Vec<String>,
    pub frontmatter_filters: Vec<(String, String)>,
    pub limit: usize,
}

impl KnowledgeFullTextQuery {
    /// A query for `text` with no tags, no filters and a limit of 10.
    pub fn new<T: IntoText>(text: T) -> (r: Self)
        ensures
            r.text@ == text.text(),
            r.tags@.len() == 0,
            r.frontmatter_filters@.len() == 0,
            r.limit == 10,
    {
        KnowledgeFullTextQuery {
            text: text.into_text(),
            tags: Vec::new(),
            frontmatter_filters: Vec::new(),
            limit: 10,
        }
    }

    /// The same query requiring `tags`.
    pub fn with_tags(self, tags: Vec<String>) -> (r: Self)
        ensures
            r.text == self.text,
            r.tags@ == tags@,
            r.frontmatter_filters@ == self.frontmatter_filters@,
            r.limit == self.limit,
    {
        KnowledgeFullTextQuery { tags, ..self }
    }

    /// The same query with one more frontmatter filter, at the end.
    pub fn with_frontmatter_filter<K: IntoText, V: IntoText>(self, key: K, value: V) -> (r: Self)
        ensures
            r.text == self.text,
            r.tags@ == self.tags@,
            r.frontmatter_filters@.len() == self.frontmatter_filters@.len() + 1,
            r.frontmatter_filters@.drop_last() == self.frontmatter_filters@,
            r.frontmatter_filters@.last().0@ == key.text(),
            r.frontmatter_filters@.last().1@ == value.text(),
            r.limit == self.limit,
    {
        let mut filters = self.frontmatter_filters;
        let ghost before = filters@;
        filters.push((key.into_text(), value.into_text()));
        assert(filters@.drop_last() == before);
        KnowledgeFullTextQuery { frontmatter_filters: filters, text: self.text, tags: self.tags, limit: self.limit }
    }

    /// The same query with another limit.
    pub fn with_limit(self, limit: usize) -> (r: Self)
        ensures
            r.text == self.text,
            r.tags@ == self.tags@,
            r.frontmatter_filters@ == self.frontmatter_filters@,
            r.limit == limit,
    {
        KnowledgeFullTextQuery { limit, ..self }
    }
}

/// Errors from knowledge index operations.
#[derive(Debug, Clone, PartialEq, Eq)]
pub enum KnowledgeIndexError {
    LockPoisoned,
    InvalidQuery(String),
    InvalidEmbedding(String),
    DimensionMismatch { expected: usize, actual: usize },
}

/// Rerank mode for hybrid knowledge search.
#[derive(Debug, Clone, Copy, PartialEq, Eq)]
pub enum KnowledgeHybridRerankMode {
    Disabled,
    DeterministicHook,
}

impl Default for KnowledgeHybridRerankMode {
    fn default() -> (r: Self)
        ensures
            r == KnowledgeHybridRerankMode::Disabled,
    {
        KnowledgeHybridRerankMode::Disabled
    }
}

/// Reranker that keeps the order it is given.
#[derive(Debug, Clone, Copy, Default)]
pub struct NoopHybridReranker;

impl NoopHybridReranker {
    /// Leaves the results in their order.
    pub fn rerank_items<T>(&self, results: &mut Vec<T>)
        ensures
            final(results)@ == old(results)@,
    {
    }
}

/// Reranker that reverses the order, to show that the rerank seam can
/// reorder results.
#[derive(Debug, Clone, Copy, Default)]
pub struct ReverseHybridReranker;

impl ReverseHybridReranker {
    /// Reverses the results.
    pub fn rerank_items<T>(&self, results: &mut Vec<T>)
        ensures
            final(results)@ == old(results)@.reverse(),
    {
        let mut taken: Vec<T> = Vec::new();
        std::mem::swap(&mut taken, results);
        let ghost orig = taken@;
        let mut out: Vec<T> = Vec::new();
        while taken.len() > 0
            invariant
                orig.len() == taken@.len() + out@.len(),
                taken@ == orig.take(taken@.len() as int),
                out@ == orig.skip(taken@.len() as int).reverse(),
            decreases taken@.len(),
        {
            let ghost n = taken@.len();
            let x = taken.pop().unwrap();
            proof {
                assert(orig.take(n - 1) == orig.take(n as int).drop_last());
                assert(orig.skip(n - 1).reverse() =~= orig.skip(n as int).reverse().push(orig[n - 1]));
            }
            out.push(x);
        }
        assert(orig.skip(0) == orig);
        *results = out;
    }
}

/// Hybrid search over a full-text and a semantic index, with a reranker.
#[derive(Debug, Clone, Copy)]
pub struct DeterministicHybridKnowledgeSearch<'a, F, S, R> {
    full_text: &'a F,
    semantic: &'a S,
    reranker: R,
}

impl<'a, F, S> DeterministicHybridKnowledgeSearch<'a, F, S, NoopHybridReranker> {
    /// A search over the two indexes that keeps the fused order.
    pub fn new(full_text: &'a F, semantic: &'a S) -> (r: Self)
        ensures
            r.full_text_index() == full_text,
            r.semantic_index() == semantic,
    {
        DeterministicHybridKnowledgeSearch { full_text, semantic, reranker: NoopHybridReranker }
    }
}

impl<'a, F, S, R> DeterministicHybridKnowledgeSearch<'a, F, S, R> {
    /// The full-text index searched.
    pub closed spec fn full_text_index(&self) -> &'a F {
        self.full_text
    }

    /// The semantic index searched.
    pub closed spec fn semantic_index(&self) -> &'a S {
        self.semantic
    }

    /// The reranker applied.
    pub closed spec fn reranker_spec(&self) -> R {
        self.reranker
    }

    /// The same search with another reranker.
    pub fn with_reranker<NextR>(self, reranker: NextR) -> (r: DeterministicHybridKnowledgeSearch<'a, F, S, NextR>)
        ensures
            r.full_text_index() == self.full_text_index(),
            r.semantic_index() == self.semantic_index(),
            r.reranker_spec() == reranker,
    {
        DeterministicHybridKnowledgeSearch {
            full_text: self.full_text,
            semantic: self.semantic,
            reranker,
        }
    }

    pub fn full_text(&self) -> (r: &'a F)
        ensures
            r == self.full_text_index(),
    {
        self.full_text
    }

    pub fn semantic(&self) -> (r: &'a S)
        ensures
            r == self.semantic_index(),
    {
        self.semantic
    }

    pub fn reranker(&self) -> (r: &R)
        ensures
            *r == self.reranker_spec(),
    {
        &self.reranker
    }
}

/// Selected full-text backend implementation kind.
#[derive(Debug, Clone, Copy, PartialEq, Eq)]
pub enum KnowledgeFullTextBackendKind {
    /// Dependency-free deterministic in-process backend.
    DeterministicInProcess,
}

impl Default for KnowledgeFullTextBackendKind {
    fn default() -> (r: Self)
        ensures
            r == KnowledgeFullTextBackendKind::DeterministicInProcess,
    {
        KnowledgeFullTextBackendKind::DeterministicInProcess
    }
}

/// Selected embedding backend implementation kind.
#[derive(Debug, Clone, Copy, PartialEq, Eq)]
pub enum KnowledgeEmbeddingBackendKind {
    /// Dependency-free deterministic in-process backend.
    DeterministicInProcess,
}

impl Default for KnowledgeEmbeddingBackendKind {
    fn default() -> (r: Self)
        ensures
            r == KnowledgeEmbeddingBackendKind::DeterministicInProcess,
    {
        KnowledgeEmbeddingBackendKind::DeterministicInProcess
    }
}

/// The words of `s`: its maximal runs of non-whitespace characters, in order.
pub open spec fn words(s: Seq<char>) -> Seq<Seq<char>>
    decreases s.len(),
{
    if s.len() == 0 {
        Seq::empty()
    } else {
        let w = words(s.drop_last());
        let c = s.last();
        if unicode_white_space(c) {
            w
        } else if s.len() >= 2 && !unicode_white_space(s[s.len() - 2]) {
            w.drop_last().push(w.last().push(c))
        } else {
            w.push(seq![c])
        }
    }
}

/// The search terms of a query: its words in ASCII lower case.
pub fn query_terms(text: &str) -> (r: Vec<String>)
    ensures
        r@.map_values(|t: String| t@) == words(ascii_lower(text@)),
{
    let cs = ascii_lower_chars(text);
    let ghost s = cs@;
    let mut terms: Vec<String> = Vec::new();
    let mut current: Vec<char> = Vec::new();
    let mut i: usize = 0;
    while i < cs.len()
        invariant
            s == cs@,
            i <= s.len(),
            ({
                let w = words(s.take(i as int));
                if current@.len() > 0 {
                    &&& terms@.map_values(|t: String| t@) == w.drop_last()
                    &&& w.len() > 0
                    &&& w.last() == current@
                    &&& i > 0 && !unicode_white_space(s[i - 1])
                } else {
                    &&& terms@.map_values(|t: String| t@) == w
                    &&& (i == 0 || unicode_white_space(s[i - 1]))
                }
            }),
        decreases s.len() - i,
    {
        let c = cs[i];
        proof {
            assert(s.take(i + 1).drop_last() == s.take(i as int));
            assert(s.take(i + 1).last() == c);
            if i > 0 {
                assert(s.take(i + 1)[i - 1] == s[i - 1]);
            }
        }
        if is_whitespace(c) {
            if current.len() > 0 {
                let ghost before = terms@;
                terms.push(string_from_chars(current.as_slice()));
                proof {
                    let w = words(s.take(i as int));
                    assert(terms@.map_values(|t: String| t@) == before.map_values(|t: String| t@).push(current@));
                    assert(w.drop_last().push(w.last()) == w);
                }
                current = Vec::new();
            }
        } else {
            current.push(c);
        }
        i = i + 1;
    }
    if current.len() > 0 {
        let ghost before = terms@;
        terms.push(string_from_chars(current.as_slice()));
        proof {
            let w = words(s.take(i as int));
            assert(terms@.map_values(|t: String| t@) == before.map_values(|t: String| t@).push(current@));
            assert(w.drop_last().push(w.last()) == w);
        }
    }
    proof {
        assert(s.take(s.len() as int) == s);
    }
    terms
}

/// Whether a text is blank: every character is whitespace.
pub open spec fn blank(s: Seq<char>) -> bool {
    forall|i: int| 0 <= i < s.len() ==> unicode_white_space(#[trigger] s[i])
}

pub(crate) fn is_blank(s: &str) -> (r: bool)
    ensures
        r == blank(s@),
{
    let cs = crate::text::chars_of(s);
    let mut i: usize = 0;
    while i < cs.len()
        invariant
            cs@ == s@,
            i <= cs@.len(),
            forall|k: int| 0 <= k < i ==> unicode_white_space(#[trigger] s@[k]),
        decreases cs@.len() - i,
    {
        if !is_whitespace(cs[i]) {
            return false;
        }
        i = i + 1;
    }
    true
}

/// Draft validation errors.
#[derive(Debug, Clone, PartialEq, Eq)]
pub enum KnowledgeValidationError {
    BlankTitle,
    BlankContent,
}

/// Validates the fields of a draft before it is written: the title, then
/// the content, must not be blank.
pub fn validate_draft_fields(title: &str, content_markdown: &str) -> (r: Result<(), KnowledgeValidationError>)
    ensures
        blank(title@) ==> r == Err::<(), KnowledgeValidationError>(KnowledgeValidationError::BlankTitle),
        !blank(title@) && blank(content_markdown@) ==> r == Err::<(), KnowledgeValidationError>(
            KnowledgeValidationError::BlankContent,
        ),
        !blank(title@) && !blank(content_markdown@) ==> r is Ok,
{
    if is_blank(title) {
        return Err(KnowledgeValidationError::BlankTitle);
    }
    if is_blank(content_markdown) {
        return Err(KnowledgeValidationError::BlankContent);
    }
    Ok(())
}

/// Lightweight answer link for a question ledger entry.
#[derive(Debug, Clone, PartialEq, Eq)]
pub struct QuestionAnswerRef {
    pub answer_id: String,
    pub answer_cache_ref: Option<String>,
    pub knowledge_entry_id: Option<KnowledgeEntryId>,
}

/// Question ledger errors.
#[derive(Debug, Clone, PartialEq, Eq)]
pub enum QuestionLedgerError {
    LockPoisoned,
    BlankQuestion,
    NotFound(String),
}

/// Citation evidence errors.
#[derive(Debug, Clone, PartialEq, Eq)]
pub enum CitationEvidenceError {
    LockPoisoned,
    BlankAnswerId,
    NotFound(String),
}

/// Governance lifecycle status for knowledge entries.
#[derive(Debug, Clone, Copy, PartialEq, Eq, Structural)]
pub enum KnowledgeGovernanceStatus {
    Draft,
    Active,
    Deprecated,
    Archived,
}

/// Frontmatter validation errors used by the governance workflow.
#[derive(Debug, Clone, Copy, PartialEq, Eq)]
pub enum KnowledgeGovernanceValidationError {
    MissingTitle,
    MissingSummary,
    MissingTags,
}

/// Governance errors.
#[derive(Debug, Clone, PartialEq, Eq)]
pub enum KnowledgeGovernanceError {
    LockPoisoned,
    NotFound(String),
    ValidationFailed(Vec<KnowledgeGovernanceValidationError>),
}

/// Answer cache errors.
#[derive(Debug, Clone, PartialEq, Eq)]
pub enum AnswerCacheError {
    LockPoisoned,
    InvalidVersion,
    BlankAnswer,
    NotFound(String),
}

/// Positive, monotonically increasing package version.
#[derive(Debug, Clone, Copy, PartialEq, Eq, PartialOrd, Ord)]
pub struct AnswerCachePackageVersion(u32);

impl AnswerCachePackageVersion {
    /// A version; zero is rejected.
    pub fn new(version: u32) -> (r: Result<Self, AnswerCacheError>)
        ensures
            version == 0 ==> r == Err::<Self, AnswerCacheError>(AnswerCacheError::InvalidVersion),
            version > 0 ==> (r matches Ok(v) && v.value_spec() == version),
    {
        if version == 0 {
            return Err(AnswerCacheError::InvalidVersion);
        }
        Ok(AnswerCachePackageVersion(version))
    }

    /// The version number.
    pub closed spec fn value_spec(self) -> u32 {
        self.0
    }

    /// Versions are positive.
    #[verifier::type_invariant]
    spec fn positive(self) -> bool {
        self.0 > 0
    }

    /// The version number, which is positive.
    pub fn value(self) -> (r: u32)
        ensures
            r == self.value_spec(),
            r > 0,
    {
        proof {
            use_type_invariant(&self);
        }
        self.0
    }
}


/// Freshness policy for cached answers.
#[derive(Debug, Clone, PartialEq, Eq)]
pub struct AnswerFreshnessPolicy {
    pub expires_after_days: Option<u32>,
}

impl AnswerFreshnessPolicy {
    pub fn never_expires() -> (r: Self)
        ensures
            r.expires_after_days is None,
    {
        AnswerFreshnessPolicy { expires_after_days: None }
    }

    pub fn expires_after_days(days: u32) -> (r: Self)
        ensures
            r.expires_after_days == Some(days),
    {
        AnswerFreshnessPolicy { expires_after_days: Some(days) }
    }
}

impl Default for AnswerFreshnessPolicy {
    fn default() -> (r: Self)
        ensures
            r.expires_after_days is None,
    {
        Self::never_expires()
    }
}

/// Input for `knowledge.search`.
#[derive(Debug, Clone, PartialEq, Eq)]
pub struct KnowledgeSearchActionInput {
    pub query: KnowledgeSearchQuery,
}

/// Input for `knowledge.get_entry`.
#[derive(Debug, Clone, PartialEq, Eq)]
pub struct KnowledgeGetEntryActionInput {
    pub id: KnowledgeEntryId,
}

/// Errors from knowledge repository operations.
#[derive(Debug, Clone, PartialEq, Eq)]
pub enum KnowledgeRepositoryError {
    LockPoisoned,
    Io(String),
    FrontmatterParse { path: String, reason: String },
    EntryExists(String),
    InvalidId(String),
    NotFound(String),
}

/// Actor envelope used by event and audit records: human, model, tool and
/// engine actors all enter the same boundary.
#[derive(Debug, Clone, PartialEq, Eq)]
pub struct KnowledgeActor {
    pub actor_type: String,
    pub actor_id: String,
    pub delegated_by: Option<String>,
}

impl KnowledgeActor {
    /// The knowledge engine acting for `delegated_by`.
    pub fn engine<D: IntoText>(delegated_by: D) -> (r: Self)
        ensures
            r.actor_type@ == "engine"@,
            r.actor_id@ == "knowledge-engine"@,
            r.delegated_by matches Some(d) && d@ == delegated_by.text(),
    {
        KnowledgeActor {
            actor_type: owned("engine"),
            actor_id: owned("knowledge-engine"),
            delegated_by: Some(delegated_by.into_text()),
        }
    }

    /// A language model acting for `delegated_by`.
    pub fn llm<A: IntoText, D: IntoText>(actor_id: A, delegated_by: D) -> (r: Self)
        ensures
            r.actor_type@ == "llm"@,
            r.actor_id@ == actor_id.text(),
            r.delegated_by matches Some(d) && d@ == delegated_by.text(),
    {
        KnowledgeActor {
            actor_type: owned("llm"),
            actor_id: actor_id.into_text(),
            delegated_by: Some(delegated_by.into_text()),
        }
    }
}

/// Lifecycle of an asset in the knowledge store.
#[derive(Debug, Clone, Copy, PartialEq, Eq)]
pub enum KnowledgeAssetStatus {
    ImportedUnbound,
    CandidateBound,
    ActiveBound,
    EvidenceBound,
    Deprecated,
    GarbageCollectable,
}

/// A representation of an asset.
#[derive(Debug, Clone, Copy, PartialEq, Eq)]
pub enum KnowledgeAssetRepresentationKind {
    MetadataOnly,
    BindingSummary,
    SemanticSummary,
    OcrText,
    Transcript,
    Thumbnail,
    Preview,
    OptimizedBlob,
    RawBlob,
}

/// What an asset is bound to.
#[derive(Debug, Clone, PartialEq, Eq)]
pub enum KnowledgeBindingTarget {
    Object { object_id: KnowledgeObjectId },
    ObjectAttribute { object_id: KnowledgeObjectId, attribute_key: String },
    ObjectState { object_id: KnowledgeObjectId, state_key: String },
    Relation { relation_id: KnowledgeRelationId },
    Claim { claim_id: KnowledgeClaimId },
    Evidence { evidence_id: EvidenceRefId },
    Event { event_id: KnowledgeEventId },
}

impl KnowledgeBindingTarget {
    /// A binding to an attribute of an object.
    pub fn object_attribute<O: IntoText, K: IntoText>(object_id: O, attribute_key: K) -> (r: Self)
        ensures
            r matches KnowledgeBindingTarget::ObjectAttribute { object_id: o, attribute_key: k }
                && o@ == object_id.text() && k@ == attribute_key.text(),
    {
        KnowledgeBindingTarget::ObjectAttribute {
            object_id: KnowledgeObjectId(object_id.into_text()),
            attribute_key: attribute_key.into_text(),
        }
    }
}

/// Who may see what of an asset.
#[derive(Debug, Clone, PartialEq)]
pub struct KnowledgeAssetVisibility {
    pub llm_access: String,
    pub raw_blob_access: bool,
}

impl Default for KnowledgeAssetVisibility {
    fn default() -> (r: Self)
        ensures
            r.llm_access@ == "metadata_and_derivatives_only"@,
            !r.raw_blob_access,
    {
        KnowledgeAssetVisibility {
            llm_access: owned("metadata_and_derivatives_only"),
            raw_blob_access: false,
        }
    }
}

/// How a caller reaches the knowledge engine.
#[derive(Debug, Clone, Copy, PartialEq, Eq)]
pub enum KnowledgeEngineAccessMode {
    /// The model receives controlled packets and derivatives only.
    LlmControlledPacket,
    /// Humans or advanced tooling use the engine API, with audit.
    EngineApi,
    /// Direct filesystem access, represented only so validators can reject it.
    DirectFilesystem,
}

impl KnowledgeEngineAccessMode {
    /// Whether the access mode is allowed: all but direct filesystem access.
    pub fn is_allowed(self) -> (r: bool)
        ensures
            r == !(self is DirectFilesystem),
    {
        match self {
            KnowledgeEngineAccessMode::DirectFilesystem => false,
            _ => true,
        }
    }
}

} // verus!
