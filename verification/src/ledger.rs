//! Records that link questions, answers and evidence: the question ledger,
//! the citation evidence store and the versioned answer cache, each kept
//! in creation order with ids numbered from one, and listed by id.
use crate::knowledge::{
    blank, is_blank, AnswerCacheError, AnswerCachePackageId, AnswerCachePackageVersion,
    AnswerFreshnessPolicy, BrowserSnapshotId, CitationEvidenceError, EvidenceRefId,
    KnowledgeEntryId, QuestionAnswerRef, QuestionLedgerEntryId, QuestionLedgerError,
};
use crate::text::{
    chars_of, decimal, lemma_numbered_text_injective, lemma_text_lt_irreflexive,
    lemma_text_lt_total, lemma_text_lt_transitive, owned, push_decimal, str_eq, text_less, text_lt,
    IntoText,
};
use crate::clock::now_unix_seconds;
use crate::permission::{
    check_decision, EnterpriseUserId, PermissionAction, PermissionDecision, PermissionStore,
    PermissionStoreView, ResourceId, ResourceType,
};
use vstd::prelude::*;

verus! {

/// Identifier of a work object that questions and answers are attached to.
#[derive(Debug, Clone, PartialEq, Eq, Hash)]
pub struct WorkObjectId(pub String);

impl View for WorkObjectId {
    type V = Seq<char>;

    open spec fn view(&self) -> Seq<char> {
        self.0@
    }
}

impl IntoText for WorkObjectId {
    open spec fn text(&self) -> Seq<char> {
        self@
    }

    fn into_text(self) -> (r: String) {
        self.0
    }
}

impl WorkObjectId {
    /// Builds the id from text.
    pub fn from<T: IntoText>(s: T) -> (r: WorkObjectId)
        ensures
            r@ == s.text(),
    {
        WorkObjectId(s.into_text())
    }

    /// The id as text.
    pub fn as_str(&self) -> (r: &str)
        ensures
            r@ == self@,
    {
        self.0.as_str()
    }

    /// An equal copy of the id.
    pub fn duplicate(&self) -> (r: WorkObjectId)
        ensures
            r == *self,
    {
        WorkObjectId(self.0.clone())
    }
}

/// A record that carries a text key; its view determines the key.
pub trait Keyed: View + Sized {
    /// The key of a record with view `v`.
    spec fn key_of(v: Self::V) -> Seq<char>;

    /// The record's key.
    fn key_str(&self) -> (r: &str)
        ensures
            r@ == Self::key_of(self@);

    /// A copy with the same view.
    fn copy(&self) -> (r: Self)
        ensures
            r@ == self@;
}

/// The views of a sequence of records.
pub open spec fn views<T: View>(s: Seq<T>) -> Seq<T::V> {
    s.map_values(|x: T| x@)
}

/// Whether the keys of `s` strictly increase.
pub open spec fn keys_increasing<T: Keyed>(s: Seq<T::V>) -> bool {
    forall|i: int, j: int|
        0 <= i < j < s.len() ==> text_lt(T::key_of(#[trigger] s[i]), T::key_of(#[trigger] s[j]))
}

/// Whether no two records of `s` share a key.
pub open spec fn keys_distinct<T: Keyed>(s: Seq<T::V>) -> bool {
    forall|i: int, j: int|
        0 <= i < s.len() && 0 <= j < s.len() && i != j ==> T::key_of(#[trigger] s[i]) != T::key_of(
            #[trigger] s[j],
        )
}

/// Whether the record at each position `i` of `s` has the key `prefix`
/// followed by the decimal digits of `i + 1`.
pub open spec fn numbered<T: Keyed>(s: Seq<T::V>, prefix: Seq<char>) -> bool {
    forall|i: int| 0 <= i < s.len() ==> T::key_of(#[trigger] s[i]) == prefix + decimal((i + 1) as nat)
}

/// Whether some record of `s` has key `k`.
pub open spec fn has_key<T: Keyed>(s: Seq<T::V>, k: Seq<char>) -> bool {
    exists|i: int| 0 <= i < s.len() && T::key_of(#[trigger] s[i]) == k
}

/// A position of `s` whose record has key `k`, when there is one.
pub open spec fn key_index<T: Keyed>(s: Seq<T::V>, k: Seq<char>) -> int {
    choose|i: int| 0 <= i < s.len() && T::key_of(#[trigger] s[i]) == k
}

/// The record of `s` with key `k`, if any.
pub open spec fn keyed<T: Keyed>(s: Seq<T::V>, k: Seq<char>) -> Option<T::V> {
    if has_key::<T>(s, k) {
        Some(s[key_index::<T>(s, k)])
    } else {
        None
    }
}

/// `r` lists exactly the records of `s` that satisfy `pred`, by
/// increasing key.
pub open spec fn lists_matching<T: Keyed>(s: Seq<T::V>, pred: spec_fn(T::V) -> bool, r: Seq<T::V>) -> bool {
    &&& keys_increasing::<T>(r)
    &&& forall|x: T::V| #[trigger] r.contains(x) <==> (s.contains(x) && pred(x))
}

/// Numbered records have distinct keys.
pub proof fn lemma_numbered_distinct<T: Keyed>(s: Seq<T::V>, prefix: Seq<char>)
    requires
        numbered::<T>(s, prefix),
    ensures
        keys_distinct::<T>(s),
{
    assert forall|i: int, j: int|
        0 <= i < s.len() && 0 <= j < s.len() && i != j implies T::key_of(#[trigger] s[i]) != T::key_of(
            #[trigger] s[j],
        ) by {
        if T::key_of(s[i]) == T::key_of(s[j]) {
            lemma_numbered_text_injective(prefix, (i + 1) as nat, (j + 1) as nat);
        }
    }
}

/// In a sequence with distinct keys, the record with the key of position
/// `i` is the one at `i`.
pub proof fn lemma_keyed_at<T: Keyed>(s: Seq<T::V>, i: int)
    requires
        keys_distinct::<T>(s),
        0 <= i < s.len(),
    ensures
        has_key::<T>(s, T::key_of(s[i])),
        key_index::<T>(s, T::key_of(s[i])) == i,
        keyed::<T>(s, T::key_of(s[i])) == Some(s[i]),
{
    assert(has_key::<T>(s, T::key_of(s[i])));
}

/// Strictly increasing keys are distinct.
pub(crate) proof fn lemma_increasing_distinct<T: Keyed>(s: Seq<T::V>)
    requires
        keys_increasing::<T>(s),
    ensures
        keys_distinct::<T>(s),
{
    assert forall|i: int, j: int|
        0 <= i < s.len() && 0 <= j < s.len() && i != j implies T::key_of(#[trigger] s[i]) != T::key_of(
            #[trigger] s[j],
        ) by {
        lemma_text_lt_irreflexive(T::key_of(s[i]));
    }
}

/// The position of the record with key `key`, if any.
pub(crate) fn position_of<T: Keyed>(v: &Vec<T>, key: &str) -> (r: Option<usize>)
    ensures
        match r {
            Some(i) => i < v@.len() && T::key_of(v@[i as int]@) == key@,
            None => !has_key::<T>(views(v@), key@),
        },
{
    let mut i: usize = 0;
    while i < v.len()
        invariant
            i <= v@.len(),
            forall|k: int| 0 <= k < i ==> T::key_of((#[trigger] v@[k])@) != key@,
        decreases v@.len() - i,
    {
        if str_eq(v[i].key_str(), key) {
            return Some(i);
        }
        i = i + 1;
    }
    proof {
        assert forall|k: int| 0 <= k < views(v@).len() implies T::key_of(#[trigger] views(v@)[k]) != key@ by {
            assert(views(v@)[k] == v@[k]@);
        }
    }
    None
}

/// The first position of sorted `v` whose key does not come before `k`.
pub(crate) fn sorted_position<T: Keyed>(v: &Vec<T>, k: &[char]) -> (r: usize)
    ensures
        r <= v@.len(),
        forall|i: int| 0 <= i < r ==> text_lt(T::key_of((#[trigger] v@[i])@), k@),
        r < v@.len() ==> !text_lt(T::key_of(v@[r as int]@), k@),
{
    let mut i: usize = 0;
    while i < v.len()
        invariant
            i <= v@.len(),
            forall|j: int| 0 <= j < i ==> text_lt(T::key_of((#[trigger] v@[j])@), k@),
        decreases v@.len() - i,
    {
        let cs = chars_of(v[i].key_str());
        if !text_less(cs.as_slice(), k) {
            return i;
        }
        i = i + 1;
    }
    i
}

/// Inserts `x`, whose key is new, at its place among records sorted by key.
pub(crate) fn insert_sorted<T: Keyed>(v: &mut Vec<T>, x: T)
    requires
        keys_increasing::<T>(views(old(v)@)),
        !has_key::<T>(views(old(v)@), T::key_of(x@)),
    ensures
        keys_increasing::<T>(views(final(v)@)),
        forall|y: T::V| #[trigger]
            views(final(v)@).contains(y) <==> (views(old(v)@).contains(y) || y == x@),
{
    let ghost before = views(v@);
    let ghost xk = T::key_of(x@);
    let k = chars_of(x.key_str());
    let p = sorted_position(v, k.as_slice());
    v.insert(p, x);
    proof {
        let after = views(v@);
        assert(after =~= before.insert(p as int, x@));
        assert forall|i: int| 0 <= i < p implies text_lt(T::key_of(#[trigger] before[i]), xk) by {
            assert(before[i] == old(v)@[i]@);
        }
        if p < before.len() {
            assert(before[p as int] == old(v)@[p as int]@);
            if T::key_of(before[p as int]) == xk {
                assert(has_key::<T>(before, xk));
            }
            lemma_text_lt_total(T::key_of(before[p as int]), xk);
        }
        assert forall|m: int| p <= m < before.len() implies text_lt(xk, T::key_of(#[trigger] before[m])) by {
            assert(before[m] == old(v)@[m]@);
            if m > p {
                lemma_text_lt_transitive(xk, T::key_of(before[p as int]), T::key_of(before[m]));
            }
        }
        assert forall|i: int, j: int| 0 <= i < j < after.len() implies text_lt(
            T::key_of(#[trigger] after[i]),
            T::key_of(#[trigger] after[j]),
        ) by {
            if j < p {
                assert(after[i] == before[i] && after[j] == before[j]);
            } else if j == p {
                assert(after[i] == before[i]);
            } else if i == p {
                assert(after[j] == before[j - 1]);
            } else if i < p {
                assert(after[i] == before[i] && after[j] == before[j - 1]);
                lemma_text_lt_transitive(T::key_of(before[i]), xk, T::key_of(before[j - 1]));
            } else {
                assert(after[i] == before[i - 1] && after[j] == before[j - 1]);
            }
        }
        assert forall|y: T::V| #[trigger] after.contains(y) <==> (before.contains(y) || y == x@) by {
            if after.contains(y) {
                let i = choose|i: int| 0 <= i < after.len() && after[i] == y;
                if i < p {
                    assert(before[i] == y);
                } else if i > p {
                    assert(before[i - 1] == y);
                }
            }
            if before.contains(y) {
                let i = choose|i: int| 0 <= i < before.len() && before[i] == y;
                if i < p {
                    assert(after[i] == y);
                } else {
                    assert(after[i + 1] == y);
                }
            }
            if y == x@ {
                assert(after[p as int] == y);
            }
        }
    }
}

/// Copies of the records of `s` flagged in `wanted`, by increasing key.
pub(crate) fn select_sorted<T: Keyed>(s: &Vec<T>, wanted: &Vec<bool>, Ghost(pred): Ghost<spec_fn(T::V) -> bool>) -> (r: Vec<T>)
    requires
        wanted@.len() == s@.len(),
        forall|k: int| 0 <= k < s@.len() ==> wanted@[k] == pred(#[trigger] s@[k]@),
        keys_distinct::<T>(views(s@)),
    ensures
        lists_matching::<T>(views(s@), pred, views(r@)),
{
    let ghost sv = views(s@);
    let mut out: Vec<T> = Vec::new();
    let n: usize = s.len();
    let mut i: usize = 0;
    while i < n
        invariant
            n == s@.len(),
            n == wanted@.len(),
            i <= n,
            sv == views(s@),
            sv.len() == n,
            keys_distinct::<T>(sv),
            forall|k: int| 0 <= k < n ==> wanted@[k] == pred(#[trigger] s@[k]@),
            keys_increasing::<T>(views(out@)),
            forall|y: T::V| #[trigger]
                views(out@).contains(y) <==> (exists|k: int| 0 <= k < i && #[trigger] sv[k] == y && pred(y)),
        decreases n - i,
    {
        if wanted[i] {
            let c = s[i].copy();
            proof {
                assert(sv[i as int] == s@[i as int]@);
                if has_key::<T>(views(out@), T::key_of(c@)) {
                    let j = choose|j: int| 0 <= j < views(out@).len() && T::key_of(#[trigger] views(out@)[j]) == T::key_of(c@);
                    assert(views(out@).contains(views(out@)[j]));
                    let k = choose|k: int| 0 <= k < i && #[trigger] sv[k] == views(out@)[j] && pred(views(out@)[j]);
                    assert(T::key_of(sv[k]) == T::key_of(sv[i as int]));
                }
            }
            let ghost before = views(out@);
            insert_sorted(&mut out, c);
            proof {
                assert forall|y: T::V| #[trigger]
                    views(out@).contains(y) <==> (exists|k: int| 0 <= k < i + 1 && #[trigger] sv[k] == y && pred(y)) by {
                    if y == sv[i as int] {
                        assert(sv[i as int] == y);
                    }
                    if exists|k: int| 0 <= k < i + 1 && #[trigger] sv[k] == y && pred(y) {
                        let k = choose|k: int| 0 <= k < i + 1 && #[trigger] sv[k] == y && pred(y);
                        if k < i {
                            assert(before.contains(y));
                        }
                    }
                }
            }
        } else {
            proof {
                assert(sv[i as int] == s@[i as int]@);
                assert forall|y: T::V| #[trigger]
                    views(out@).contains(y) <==> (exists|k: int| 0 <= k < i + 1 && #[trigger] sv[k] == y && pred(y)) by {
                    if exists|k: int| 0 <= k < i + 1 && #[trigger] sv[k] == y && pred(y) {
                        let k = choose|k: int| 0 <= k < i + 1 && #[trigger] sv[k] == y && pred(y);
                        assert(k < i);
                    }
                }
            }
        }
        i = i + 1;
    }
    proof {
        assert forall|y: T::V| #[trigger] views(out@).contains(y) <==> (sv.contains(y) && pred(y)) by {
            if sv.contains(y) && pred(y) {
                let k = choose|k: int| 0 <= k < sv.len() && sv[k] == y;
                assert(sv[k] == y);
            }
        }
    }
    out
}

/// Copies of the strings of `v`.
pub(crate) fn copy_strings(v: &Vec<String>) -> (r: Vec<String>)
    ensures
        r@ == v@,
{
    let mut out: Vec<String> = Vec::new();
    let mut i: usize = 0;
    while i < v.len()
        invariant
            i <= v@.len(),
            out@ == v@.take(i as int),
        decreases v@.len() - i,
    {
        out.push(v[i].clone());
        proof {
            assert(v@.take(i + 1) == v@.take(i as int).push(v@[i as int]));
        }
        i = i + 1;
    }
    proof {
        assert(v@.take(v@.len() as int) == v@);
    }
    out
}

/// Copies of the ids of `v`.
pub(crate) fn copy_entry_ids(v: &Vec<KnowledgeEntryId>) -> (r: Vec<KnowledgeEntryId>)
    ensures
        r@ == v@,
{
    let mut out: Vec<KnowledgeEntryId> = Vec::new();
    let mut i: usize = 0;
    while i < v.len()
        invariant
            i <= v@.len(),
            out@ == v@.take(i as int),
        decreases v@.len() - i,
    {
        out.push(v[i].duplicate());
        proof {
            assert(v@.take(i + 1) == v@.take(i as int).push(v@[i as int]));
        }
        i = i + 1;
    }
    proof {
        assert(v@.take(v@.len() as int) == v@);
    }
    out
}

/// A copy of an optional string.
pub(crate) fn copy_opt_string(o: &Option<String>) -> (r: Option<String>)
    ensures
        r == *o,
{
    match o {
        Some(s) => Some(s.clone()),
        None => None,
    }
}

/// Whether an optional text is present and equal to `t`.
pub open spec fn is_text(o: Option<String>, t: Seq<char>) -> bool {
    o matches Some(s) && s@ == t
}

pub(crate) fn opt_text_eq(o: &Option<String>, t: &str) -> (r: bool)
    ensures
        r == is_text(*o, t@),
{
    match o {
        Some(s) => str_eq(s.as_str(), t),
        None => false,
    }
}

/// Whether some id of `ids` has the text `k`.
pub open spec fn has_entry_id(ids: Seq<KnowledgeEntryId>, k: Seq<char>) -> bool {
    exists|i: int| 0 <= i < ids.len() && (#[trigger] ids[i])@ == k
}

pub(crate) fn contains_entry_id(ids: &Vec<KnowledgeEntryId>, k: &KnowledgeEntryId) -> (r: bool)
    ensures
        r == has_entry_id(ids@, k@),
{
    let mut i: usize = 0;
    while i < ids.len()
        invariant
            i <= ids@.len(),
            forall|j: int| 0 <= j < i ==> (#[trigger] ids@[j])@ != k@,
        decreases ids@.len() - i,
    {
        if ids[i].same(k) {
            return true;
        }
        i = i + 1;
    }
    false
}

/// The text `prefix` followed by the decimal digits of `n`.
pub(crate) fn numbered_id(prefix: &str, n: usize) -> (r: String)
    requires
        n < usize::MAX,
    ensures
        r@ == prefix@ + decimal((n + 1) as nat),
{
    let mut s = owned(prefix);
    push_decimal(&mut s, (n + 1) as u64);
    s
}

impl QuestionAnswerRef {
    /// An equal copy.
    pub fn duplicate(&self) -> (r: Self)
        ensures
            r == *self,
    {
        QuestionAnswerRef {
            answer_id: self.answer_id.clone(),
            answer_cache_ref: copy_opt_string(&self.answer_cache_ref),
            knowledge_entry_id: match &self.knowledge_entry_id {
                Some(k) => Some(k.duplicate()),
                None => None,
            },
        }
    }
}

/// Append-friendly question record linked back to a conversation and
/// message; times are Unix seconds.
#[derive(Debug, Clone, PartialEq, Eq)]
pub struct QuestionLedgerEntry {
    pub id: QuestionLedgerEntryId,
    pub question: String,
    pub conversation_id: Option<String>,
    pub message_id: Option<String>,
    pub work_object_id: Option<WorkObjectId>,
    pub answer_ref: Option<QuestionAnswerRef>,
    pub related_knowledge_entry_ids: Vec<KnowledgeEntryId>,
    pub tags: Vec<String>,
    pub created_at: i64,
    pub updated_at: i64,
}

/// A question ledger entry as values.
pub struct QuestionView {
    pub id: Seq<char>,
    pub question: Seq<char>,
    pub conversation_id: Option<String>,
    pub message_id: Option<String>,
    pub work_object_id: Option<WorkObjectId>,
    pub answer_ref: Option<QuestionAnswerRef>,
    pub related_knowledge_entry_ids: Seq<KnowledgeEntryId>,
    pub tags: Seq<String>,
    pub created_at: i64,
    pub updated_at: i64,
}

impl View for QuestionLedgerEntry {
    type V = QuestionView;

    open spec fn view(&self) -> QuestionView {
        QuestionView {
            id: self.id@,
            question: self.question@,
            conversation_id: self.conversation_id,
            message_id: self.message_id,
            work_object_id: self.work_object_id,
            answer_ref: self.answer_ref,
            related_knowledge_entry_ids: self.related_knowledge_entry_ids@,
            tags: self.tags@,
            created_at: self.created_at,
            updated_at: self.updated_at,
        }
    }
}

impl Keyed for QuestionLedgerEntry {
    open spec fn key_of(v: QuestionView) -> Seq<char> {
        v.id
    }

    fn key_str(&self) -> (r: &str) {
        self.id.as_str()
    }

    fn copy(&self) -> (r: Self) {
        self.duplicate()
    }
}

impl QuestionLedgerEntry {
    /// A copy with the same value.
    pub fn duplicate(&self) -> (r: Self)
        ensures
            r@ == self@,
    {
        QuestionLedgerEntry {
            id: self.id.duplicate(),
            question: self.question.clone(),
            conversation_id: copy_opt_string(&self.conversation_id),
            message_id: copy_opt_string(&self.message_id),
            work_object_id: match &self.work_object_id {
                Some(w) => Some(w.duplicate()),
                None => None,
            },
            answer_ref: match &self.answer_ref {
                Some(a) => Some(a.duplicate()),
                None => None,
            },
            related_knowledge_entry_ids: copy_entry_ids(&self.related_knowledge_entry_ids),
            tags: copy_strings(&self.tags),
            created_at: self.created_at,
            updated_at: self.updated_at,
        }
    }
}

/// Request to create a question ledger entry; the time is Unix seconds.
#[derive(Debug, Clone, PartialEq, Eq)]
pub struct QuestionLedgerCreateRequest {
    pub question: String,
    pub conversation_id: Option<String>,
    pub message_id: Option<String>,
    pub work_object_id: Option<WorkObjectId>,
    pub related_knowledge_entry_ids: Vec<KnowledgeEntryId>,
    pub tags: Vec<String>,
    pub created_at: i64,
}

impl QuestionLedgerCreateRequest {
    /// A request for `question` with nothing linked.
    pub fn new<Q: IntoText>(question: Q, created_at: i64) -> (r: Self)
        ensures
            r.question@ == question.text(),
            r.conversation_id is None,
            r.message_id is None,
            r.work_object_id is None,
            r.related_knowledge_entry_ids@.len() == 0,
            r.tags@.len() == 0,
            r.created_at == created_at,
    {
        QuestionLedgerCreateRequest {
            question: question.into_text(),
            conversation_id: None,
            message_id: None,
            work_object_id: None,
            related_knowledge_entry_ids: Vec::new(),
            tags: Vec::new(),
            created_at,
        }
    }

    /// A request for a question asked in a conversation message.
    pub fn from_conversation_message<C: IntoText, M: IntoText, Q: IntoText>(
        conversation_id: C,
        message_id: M,
        question: Q,
        created_at: i64,
    ) -> (r: Self)
        ensures
            r.question@ == question.text(),
            is_text(r.conversation_id, conversation_id.text()),
            is_text(r.message_id, message_id.text()),
            r.work_object_id is None,
            r.related_knowledge_entry_ids@.len() == 0,
            r.tags@.len() == 0,
            r.created_at == created_at,
    {
        Self::new(question, created_at).with_conversation_id(conversation_id).with_message_id(message_id)
    }

    /// The request with its conversation set.
    pub fn with_conversation_id<C: IntoText>(self, conversation_id: C) -> (r: Self)
        ensures
            is_text(r.conversation_id, conversation_id.text()),
            r == (QuestionLedgerCreateRequest { conversation_id: r.conversation_id, ..self }),
    {
        QuestionLedgerCreateRequest { conversation_id: Some(conversation_id.into_text()), ..self }
    }

    /// The request with its message set.
    pub fn with_message_id<M: IntoText>(self, message_id: M) -> (r: Self)
        ensures
            is_text(r.message_id, message_id.text()),
            r == (QuestionLedgerCreateRequest { message_id: r.message_id, ..self }),
    {
        QuestionLedgerCreateRequest { message_id: Some(message_id.into_text()), ..self }
    }

    /// The request with its work object set.
    pub fn with_work_object_id(self, work_object_id: WorkObjectId) -> (r: Self)
        ensures
            r == (QuestionLedgerCreateRequest { work_object_id: Some(work_object_id), ..self }),
    {
        QuestionLedgerCreateRequest { work_object_id: Some(work_object_id), ..self }
    }

    /// The request with its related knowledge entries replaced.
    pub fn with_related_knowledge_entry_ids(self, ids: Vec<KnowledgeEntryId>) -> (r: Self)
        ensures
            r == (QuestionLedgerCreateRequest { related_knowledge_entry_ids: ids, ..self }),
    {
        QuestionLedgerCreateRequest { related_knowledge_entry_ids: ids, ..self }
    }

    /// The request with its tags replaced.
    pub fn with_tags(self, tags: Vec<String>) -> (r: Self)
        ensures
            r == (QuestionLedgerCreateRequest { tags, ..self }),
    {
        QuestionLedgerCreateRequest { tags, ..self }
    }
}

/// The entry that a request creates as the `n`-th (from zero) of a ledger.
pub open spec fn created_question(request: QuestionLedgerCreateRequest, n: nat) -> QuestionView {
    QuestionView {
        id: "question-"@ + decimal(n + 1),
        question: request.question@,
        conversation_id: request.conversation_id,
        message_id: request.message_id,
        work_object_id: request.work_object_id,
        answer_ref: None,
        related_knowledge_entry_ids: request.related_knowledge_entry_ids@,
        tags: request.tags@,
        created_at: request.created_at,
        updated_at: request.created_at,
    }
}

/// The entry `e` once `answer` is linked at time `t`: the answer is
/// recorded, the time updated, and the answer's knowledge entry added to
/// the related ones unless one with its id is there already.
pub open spec fn linked_question(e: QuestionView, answer: QuestionAnswerRef, t: i64) -> QuestionView {
    QuestionView {
        related_knowledge_entry_ids: match answer.knowledge_entry_id {
            Some(k) => if has_entry_id(e.related_knowledge_entry_ids, k@) {
                e.related_knowledge_entry_ids
            } else {
                e.related_knowledge_entry_ids.push(k)
            },
            None => e.related_knowledge_entry_ids,
        },
        answer_ref: Some(answer),
        updated_at: t,
        ..e
    }
}

/// Whether a question was asked in conversation `c`.
pub open spec fn asked_in(c: Seq<char>) -> spec_fn(QuestionView) -> bool {
    |e: QuestionView| is_text(e.conversation_id, c)
}

/// Whether a question is attached to work object `w`.
pub open spec fn question_on(w: Seq<char>) -> spec_fn(QuestionView) -> bool {
    |e: QuestionView| e.work_object_id matches Some(x) && x@ == w
}

/// In-memory question ledger; entries are kept in creation order.
#[derive(Debug, Clone)]
pub struct MemoryQuestionLedger {
    entries: Vec<QuestionLedgerEntry>,
}

impl View for MemoryQuestionLedger {
    type V = Seq<QuestionView>;

    closed spec fn view(&self) -> Seq<QuestionView> {
        views(self.entries@)
    }
}

impl Default for MemoryQuestionLedger {
    fn default() -> (r: Self)
        ensures
            r@.len() == 0,
            r.wf(),
    {
        Self::new()
    }
}

impl MemoryQuestionLedger {
    /// The number of entries.
    pub fn len(&self) -> (r: usize)
        ensures
            r == self@.len(),
    {
        self.entries.len()
    }

    /// The ledger's invariant: entry `i` has the id `question-{i + 1}`.
    pub open spec fn wf(&self) -> bool {
        numbered::<QuestionLedgerEntry>(self@, "question-"@)
    }

    /// An empty ledger.
    pub fn new() -> (r: Self)
        ensures
            r@.len() == 0,
            r.wf(),
    {
        let r = MemoryQuestionLedger { entries: Vec::new() };
        assert(r@ =~= Seq::<QuestionView>::empty());
        r
    }

    /// Records a question under the next id; a blank question is refused.
    pub fn create_question(&mut self, request: QuestionLedgerCreateRequest) -> (r: Result<
        QuestionLedgerEntry,
        QuestionLedgerError,
    >)
        requires
            old(self).wf(),
            old(self)@.len() < usize::MAX,
        ensures
            final(self).wf(),
            blank(request.question@) ==> r == Err::<QuestionLedgerEntry, QuestionLedgerError>(
                QuestionLedgerError::BlankQuestion,
            ) && final(self)@ == old(self)@,
            !blank(request.question@) ==> (r matches Ok(e) && e@ == created_question(
                request,
                old(self)@.len(),
            )) && final(self)@ == old(self)@.push(created_question(request, old(self)@.len())),
    {
        if is_blank(request.question.as_str()) {
            return Err(QuestionLedgerError::BlankQuestion);
        }
        let ghost req = request;
        let n = self.entries.len();
        let id = QuestionLedgerEntryId(numbered_id("question-", n));
        let entry = QuestionLedgerEntry {
            id,
            question: request.question,
            conversation_id: request.conversation_id,
            message_id: request.message_id,
            work_object_id: request.work_object_id,
            answer_ref: None,
            related_knowledge_entry_ids: request.related_knowledge_entry_ids,
            tags: request.tags,
            created_at: request.created_at,
            updated_at: request.created_at,
        };
        let copy = entry.duplicate();
        let ghost before = self@;
        self.entries.push(entry);
        proof {
            assert(self@ =~= before.push(created_question(req, n as nat)));
        }
        Ok(copy)
    }

    /// The entry with `id`, if any.
    pub fn get_question(&self, id: &QuestionLedgerEntryId) -> (r: Result<
        Option<QuestionLedgerEntry>,
        QuestionLedgerError,
    >)
        requires
            self.wf(),
        ensures
            r matches Ok(o) && match o {
                Some(e) => keyed::<QuestionLedgerEntry>(self@, id@) == Some(e@),
                None => !has_key::<QuestionLedgerEntry>(self@, id@),
            },
    {
        match position_of(&self.entries, id.as_str()) {
            Some(i) => {
                proof {
                    lemma_numbered_distinct::<QuestionLedgerEntry>(self@, "question-"@);
                    assert(self@[i as int] == self.entries@[i as int]@);
                    lemma_keyed_at::<QuestionLedgerEntry>(self@, i as int);
                }
                Ok(Some(self.entries[i].duplicate()))
            },
            None => Ok(None),
        }
    }

    /// The entries asked in `conversation_id`, by id.
    pub fn list_by_conversation(&self, conversation_id: &str) -> (r: Result<
        Vec<QuestionLedgerEntry>,
        QuestionLedgerError,
    >)
        requires
            self.wf(),
        ensures
            r matches Ok(list) && lists_matching::<QuestionLedgerEntry>(
                self@,
                asked_in(conversation_id@),
                views(list@),
            ),
    {
        let ghost pred = asked_in(conversation_id@);
        let mut wanted: Vec<bool> = Vec::new();
        let mut i: usize = 0;
        while i < self.entries.len()
            invariant
                i <= self.entries@.len(),
                wanted@.len() == i,
                pred == asked_in(conversation_id@),
                forall|k: int| 0 <= k < i ==> wanted@[k] == pred(#[trigger] self.entries@[k]@),
            decreases self.entries@.len() - i,
        {
            wanted.push(opt_text_eq(&self.entries[i].conversation_id, conversation_id));
            i = i + 1;
        }
        proof {
            lemma_numbered_distinct::<QuestionLedgerEntry>(self@, "question-"@);
        }
        Ok(select_sorted(&self.entries, &wanted, Ghost(pred)))
    }

    /// The entries attached to `work_object_id`, by id.
    pub fn list_by_work_object(&self, work_object_id: &WorkObjectId) -> (r: Result<
        Vec<QuestionLedgerEntry>,
        QuestionLedgerError,
    >)
        requires
            self.wf(),
        ensures
            r matches Ok(list) && lists_matching::<QuestionLedgerEntry>(
                self@,
                question_on(work_object_id@),
                views(list@),
            ),
    {
        let ghost pred = question_on(work_object_id@);
        let mut wanted: Vec<bool> = Vec::new();
        let mut i: usize = 0;
        while i < self.entries.len()
            invariant
                i <= self.entries@.len(),
                wanted@.len() == i,
                pred == question_on(work_object_id@),
                forall|k: int| 0 <= k < i ==> wanted@[k] == pred(#[trigger] self.entries@[k]@),
            decreases self.entries@.len() - i,
        {
            let w = match &self.entries[i].work_object_id {
                Some(w) => str_eq(w.as_str(), work_object_id.as_str()),
                None => false,
            };
            wanted.push(w);
            i = i + 1;
        }
        proof {
            lemma_numbered_distinct::<QuestionLedgerEntry>(self@, "question-"@);
        }
        Ok(select_sorted(&self.entries, &wanted, Ghost(pred)))
    }

    /// Links an answer to the entry with `id` at `updated_at`; the
    /// answer's knowledge entry joins the related ones if it is new there.
    pub fn link_answer(&mut self, id: &QuestionLedgerEntryId, answer_ref: QuestionAnswerRef, updated_at: i64) -> (r: Result<
        QuestionLedgerEntry,
        QuestionLedgerError,
    >)
        requires
            old(self).wf(),
        ensures
            final(self).wf(),
            !has_key::<QuestionLedgerEntry>(old(self)@, id@) ==> (r matches Err(
                QuestionLedgerError::NotFound(m),
            ) && m@ == id@) && final(self)@ == old(self)@,
            has_key::<QuestionLedgerEntry>(old(self)@, id@) ==> (r matches Ok(e) && e@ == linked_question(
                old(self)@[key_index::<QuestionLedgerEntry>(old(self)@, id@)],
                answer_ref,
                updated_at,
            )) && final(self)@ == old(self)@.update(
                key_index::<QuestionLedgerEntry>(old(self)@, id@),
                linked_question(
                    old(self)@[key_index::<QuestionLedgerEntry>(old(self)@, id@)],
                    answer_ref,
                    updated_at,
                ),
            ),
    {
        let i = match position_of(&self.entries, id.as_str()) {
            Some(i) => i,
            None => {
                return Err(QuestionLedgerError::NotFound(id.to_string()));
            },
        };
        let ghost before = self@;
        proof {
            lemma_numbered_distinct::<QuestionLedgerEntry>(before, "question-"@);
            assert(before[i as int] == self.entries@[i as int]@);
            lemma_keyed_at::<QuestionLedgerEntry>(before, i as int);
        }
        let mut entry = self.entries[i].duplicate();
        match &answer_ref.knowledge_entry_id {
            Some(k) => {
                if !contains_entry_id(&entry.related_knowledge_entry_ids, k) {
                    entry.related_knowledge_entry_ids.push(k.duplicate());
                }
            },
            None => {},
        }
        entry.answer_ref = Some(answer_ref);
        entry.updated_at = updated_at;
        let copy = entry.duplicate();
        self.entries.set(i, entry);
        proof {
            assert(self@ =~= before.update(i as int, copy@));
            assert forall|k: int| 0 <= k < self@.len() implies QuestionLedgerEntry::key_of(#[trigger] self@[k])
                == "question-"@ + decimal((k + 1) as nat) by {
                if k != i {
                    assert(self@[k] == before[k]);
                }
            }
        }
        Ok(copy)
    }
}

/// Questions created in a ledger can be read back under their new id.
pub proof fn law_created_question_is_found(
    before: Seq<QuestionView>,
    request: QuestionLedgerCreateRequest,
)
    requires
        numbered::<QuestionLedgerEntry>(before, "question-"@),
    ensures
        numbered::<QuestionLedgerEntry>(before.push(created_question(request, before.len())), "question-"@),
        keyed::<QuestionLedgerEntry>(
            before.push(created_question(request, before.len())),
            created_question(request, before.len()).id,
        ) == Some(created_question(request, before.len())),
{
    let after = before.push(created_question(request, before.len()));
    assert forall|i: int| 0 <= i < after.len() implies QuestionLedgerEntry::key_of(#[trigger] after[i]) == "question-"@
        + decimal((i + 1) as nat) by {
        if i < before.len() {
            assert(after[i] == before[i]);
        }
    }
    lemma_numbered_distinct::<QuestionLedgerEntry>(after, "question-"@);
    lemma_keyed_at::<QuestionLedgerEntry>(after, before.len() as int);
}

/// Identifier of an artifact cited as evidence.
#[derive(Debug, Clone, PartialEq, Eq, Hash)]
pub struct ArtifactId(pub String);

impl View for ArtifactId {
    type V = Seq<char>;

    open spec fn view(&self) -> Seq<char> {
        self.0@
    }
}

impl IntoText for ArtifactId {
    open spec fn text(&self) -> Seq<char> {
        self@
    }

    fn into_text(self) -> (r: String) {
        self.0
    }
}

impl ArtifactId {
    /// Builds the id from text.
    pub fn from<T: IntoText>(s: T) -> (r: ArtifactId)
        ensures
            r@ == s.text(),
    {
        ArtifactId(s.into_text())
    }

    /// The id as text.
    pub fn as_str(&self) -> (r: &str)
        ensures
            r@ == self@,
    {
        self.0.as_str()
    }

    /// An equal copy of the id.
    pub fn duplicate(&self) -> (r: ArtifactId)
        ensures
            r == *self,
    {
        ArtifactId(self.0.clone())
    }
}

/// Evidence source reference used by the citation pipeline.
#[derive(Debug, Clone, PartialEq, Eq)]
pub enum CitationEvidenceRef {
    SourceUri { uri: String },
    Artifact { artifact_id: ArtifactId },
    ConversationMessage { conversation_id: String, message_id: String },
    BrowserSnapshot { snapshot_id: BrowserSnapshotId, url: Option<String> },
}

impl CitationEvidenceRef {
    /// Evidence found at a URI.
    pub fn source_uri<U: IntoText>(uri: U) -> (r: Self)
        ensures
            r matches CitationEvidenceRef::SourceUri { uri: u } && u@ == uri.text(),
    {
        CitationEvidenceRef::SourceUri { uri: uri.into_text() }
    }

    /// Evidence held in an artifact.
    pub fn artifact(artifact_id: ArtifactId) -> (r: Self)
        ensures
            r == (CitationEvidenceRef::Artifact { artifact_id }),
    {
        CitationEvidenceRef::Artifact { artifact_id }
    }

    /// Evidence from a conversation message.
    pub fn conversation_message<C: IntoText, M: IntoText>(conversation_id: C, message_id: M) -> (r: Self)
        ensures
            r matches CitationEvidenceRef::ConversationMessage { conversation_id: c, message_id: m }
                && c@ == conversation_id.text() && m@ == message_id.text(),
    {
        CitationEvidenceRef::ConversationMessage {
            conversation_id: conversation_id.into_text(),
            message_id: message_id.into_text(),
        }
    }

    /// Evidence captured in a browser snapshot.
    pub fn browser_snapshot(snapshot_id: BrowserSnapshotId, url: Option<String>) -> (r: Self)
        ensures
            r == (CitationEvidenceRef::BrowserSnapshot { snapshot_id, url }),
    {
        CitationEvidenceRef::BrowserSnapshot { snapshot_id, url }
    }

    /// An equal copy.
    pub fn duplicate(&self) -> (r: Self)
        ensures
            r == *self,
    {
        match self {
            CitationEvidenceRef::SourceUri { uri } => CitationEvidenceRef::SourceUri { uri: uri.clone() },
            CitationEvidenceRef::Artifact { artifact_id } => CitationEvidenceRef::Artifact {
                artifact_id: artifact_id.duplicate(),
            },
            CitationEvidenceRef::ConversationMessage { conversation_id, message_id } =>
                CitationEvidenceRef::ConversationMessage {
                conversation_id: conversation_id.clone(),
                message_id: message_id.clone(),
            },
            CitationEvidenceRef::BrowserSnapshot { snapshot_id, url } => CitationEvidenceRef::BrowserSnapshot {
                snapshot_id: snapshot_id.duplicate(),
                url: copy_opt_string(url),
            },
        }
    }
}

/// Registered citation evidence with an optional excerpt; the time is
/// Unix seconds.
#[derive(Debug, Clone, PartialEq, Eq)]
pub struct CitationEvidenceRecord {
    pub id: EvidenceRefId,
    pub source_ref: CitationEvidenceRef,
    pub excerpt: Option<String>,
    pub created_at: i64,
}

impl View for CitationEvidenceRecord {
    type V = CitationEvidenceRecord;

    open spec fn view(&self) -> CitationEvidenceRecord {
        *self
    }
}

impl Keyed for CitationEvidenceRecord {
    open spec fn key_of(v: CitationEvidenceRecord) -> Seq<char> {
        v.id@
    }

    fn key_str(&self) -> (r: &str) {
        self.id.as_str()
    }

    fn copy(&self) -> (r: Self) {
        self.duplicate()
    }
}

impl CitationEvidenceRecord {
    /// A record without an excerpt.
    pub fn new(id: EvidenceRefId, source_ref: CitationEvidenceRef, created_at: i64) -> (r: Self)
        ensures
            r == (CitationEvidenceRecord { id, source_ref, excerpt: None, created_at }),
    {
        CitationEvidenceRecord { id, source_ref, excerpt: None, created_at }
    }

    /// The record with an excerpt.
    pub fn with_excerpt<E: IntoText>(self, excerpt: E) -> (r: Self)
        ensures
            is_text(r.excerpt, excerpt.text()),
            r == (CitationEvidenceRecord { excerpt: r.excerpt, ..self }),
    {
        CitationEvidenceRecord { excerpt: Some(excerpt.into_text()), ..self }
    }

    /// An equal copy.
    pub fn duplicate(&self) -> (r: Self)
        ensures
            r == *self,
    {
        CitationEvidenceRecord {
            id: self.id.duplicate(),
            source_ref: self.source_ref.duplicate(),
            excerpt: copy_opt_string(&self.excerpt),
            created_at: self.created_at,
        }
    }
}

/// The evidence cited by an answer.
#[derive(Debug, Clone, PartialEq, Eq)]
pub struct AnswerCitationTrace {
    pub answer_id: String,
    pub evidence: Vec<CitationEvidenceRecord>,
}

/// The evidence ids an answer cites, in the order first cited.
#[derive(Debug, Clone)]
struct AnswerCitations {
    answer_id: String,
    evidence_ids: Vec<EvidenceRefId>,
}

/// The texts of a list of evidence ids.
pub open spec fn id_texts(ids: Seq<EvidenceRefId>) -> Seq<Seq<char>> {
    ids.map_values(|e: EvidenceRefId| e@)
}

/// Whether no two answers of `cs` are the same.
spec fn answers_distinct(cs: Seq<AnswerCitations>) -> bool {
    forall|i: int, j: int|
        0 <= i < cs.len() && 0 <= j < cs.len() && i != j ==> (#[trigger] cs[i]).answer_id@ != (
        #[trigger] cs[j]).answer_id@
}

/// Whether `cs` holds citations of answer `a`.
spec fn has_answer(cs: Seq<AnswerCitations>, a: Seq<char>) -> bool {
    exists|i: int| 0 <= i < cs.len() && (#[trigger] cs[i]).answer_id@ == a
}

/// The evidence ids that `cs` records for answer `a`.
spec fn cited_in(cs: Seq<AnswerCitations>, a: Seq<char>) -> Seq<Seq<char>> {
    if has_answer(cs, a) {
        id_texts(cs[choose|i: int| 0 <= i < cs.len() && (#[trigger] cs[i]).answer_id@ == a].evidence_ids@)
    } else {
        Seq::empty()
    }
}

proof fn lemma_cited_at(cs: Seq<AnswerCitations>, i: int)
    requires
        answers_distinct(cs),
        0 <= i < cs.len(),
    ensures
        cited_in(cs, cs[i].answer_id@) == id_texts(cs[i].evidence_ids@),
{
    assert(has_answer(cs, cs[i].answer_id@));
}

/// Whether a record's id is among `ids`.
pub open spec fn cited_by(ids: Seq<Seq<char>>) -> spec_fn(CitationEvidenceRecord) -> bool {
    |e: CitationEvidenceRecord| ids.contains(e.id@)
}

/// In-memory citation evidence store: evidence in registration order, and
/// for each answer the evidence it cites.
#[derive(Debug, Clone)]
pub struct MemoryCitationEvidenceStore {
    evidence: Vec<CitationEvidenceRecord>,
    citations: Vec<AnswerCitations>,
}

impl Default for MemoryCitationEvidenceStore {
    fn default() -> (r: Self)
        ensures
            r.evidence_view().len() == 0,
            forall|a: Seq<char>| #[trigger] r.cited(a) == Seq::<Seq<char>>::empty(),
            r.wf(),
    {
        Self::new()
    }
}

impl MemoryCitationEvidenceStore {
    /// The number of registered evidence records.
    pub fn evidence_len(&self) -> (r: usize)
        ensures
            r == self.evidence_view().len(),
    {
        self.evidence.len()
    }

    /// The registered evidence, in registration order.
    pub closed spec fn evidence_view(&self) -> Seq<CitationEvidenceRecord> {
        self.evidence@
    }

    /// The evidence ids answer `a` cites, in the order first cited.
    pub closed spec fn cited(&self, a: Seq<char>) -> Seq<Seq<char>> {
        cited_in(self.citations@, a)
    }

    /// The store's invariant: evidence `i` has the id `evidence-{i + 1}`,
    /// and each answer has one citation list.
    pub closed spec fn wf(&self) -> bool {
        &&& numbered::<CitationEvidenceRecord>(self.evidence@, "evidence-"@)
        &&& answers_distinct(self.citations@)
    }

    /// An empty store.
    pub fn new() -> (r: Self)
        ensures
            r.evidence_view().len() == 0,
            forall|a: Seq<char>| #[trigger] r.cited(a) == Seq::<Seq<char>>::empty(),
            r.wf(),
    {
        MemoryCitationEvidenceStore { evidence: Vec::new(), citations: Vec::new() }
    }

    /// Registers evidence under the next id.
    pub fn register_evidence(
        &mut self,
        source_ref: CitationEvidenceRef,
        excerpt: Option<String>,
        created_at: i64,
    ) -> (r: Result<CitationEvidenceRecord, CitationEvidenceError>)
        requires
            old(self).wf(),
            old(self).evidence_view().len() < usize::MAX,
        ensures
            final(self).wf(),
            r matches Ok(e) && e.id@ == "evidence-"@ + decimal((old(self).evidence_view().len() + 1) as nat)
                && e.source_ref == source_ref && e.excerpt == excerpt && e.created_at == created_at
                && final(self).evidence_view() == old(self).evidence_view().push(e),
            forall|a: Seq<char>| #[trigger] final(self).cited(a) == old(self).cited(a),
    {
        let n = self.evidence.len();
        let record = CitationEvidenceRecord {
            id: EvidenceRefId(numbered_id("evidence-", n)),
            source_ref,
            excerpt,
            created_at,
        };
        let copy = record.duplicate();
        let ghost before = self.evidence@;
        self.evidence.push(record);
        proof {
            assert forall|i: int| 0 <= i < self.evidence@.len() implies CitationEvidenceRecord::key_of(
                #[trigger] self.evidence@[i],
            ) == "evidence-"@ + decimal((i + 1) as nat) by {
                if i < before.len() {
                    assert(self.evidence@[i] == before[i]);
                }
            }
        }
        Ok(copy)
    }

    /// The position of the citations of answer `a`, if any.
    fn answer_position(&self, a: &str) -> (r: Option<usize>)
        ensures
            match r {
                Some(i) => i < self.citations@.len() && self.citations@[i as int].answer_id@ == a@,
                None => !has_answer(self.citations@, a@),
            },
    {
        let mut i: usize = 0;
        while i < self.citations.len()
            invariant
                i <= self.citations@.len(),
                forall|k: int| 0 <= k < i ==> (#[trigger] self.citations@[k]).answer_id@ != a@,
            decreases self.citations@.len() - i,
        {
            if str_eq(self.citations[i].answer_id.as_str(), a) {
                return Some(i);
            }
            i = i + 1;
        }
        None
    }

    /// Records that answer `answer_id` cites evidence `evidence_id`; the
    /// answer id must not be blank and the evidence must be registered. A
    /// repeated citation is recorded once.
    pub fn cite_answer(&mut self, answer_id: &str, evidence_id: &EvidenceRefId, cited_at: i64) -> (r: Result<
        (),
        CitationEvidenceError,
    >)
        requires
            old(self).wf(),
        ensures
            final(self).wf(),
            final(self).evidence_view() == old(self).evidence_view(),
            blank(answer_id@) ==> r == Err::<(), CitationEvidenceError>(CitationEvidenceError::BlankAnswerId),
            !blank(answer_id@) && !has_key::<CitationEvidenceRecord>(old(self).evidence_view(), evidence_id@)
                ==> (r matches Err(CitationEvidenceError::NotFound(m)) && m@ == evidence_id@),
            r is Err ==> forall|a: Seq<char>| #[trigger] final(self).cited(a) == old(self).cited(a),
            !blank(answer_id@) && has_key::<CitationEvidenceRecord>(old(self).evidence_view(), evidence_id@)
                ==> r is Ok,
            r is Ok ==> forall|a: Seq<char>|
                #[trigger] final(self).cited(a) == if a == answer_id@ {
                    if old(self).cited(a).contains(evidence_id@) {
                        old(self).cited(a)
                    } else {
                        old(self).cited(a).push(evidence_id@)
                    }
                } else {
                    old(self).cited(a)
                },
    {
        if is_blank(answer_id) {
            return Err(CitationEvidenceError::BlankAnswerId);
        }
        match position_of(&self.evidence, evidence_id.as_str()) {
            None => {
                assert(views(self.evidence@) =~= self.evidence@);
                return Err(CitationEvidenceError::NotFound(evidence_id.to_string()));
            },
            Some(_) => {},
        }
        let ghost before = self.citations@;
        match self.answer_position(answer_id) {
            Some(p) => {
                let ghost old_ids = self.citations@[p as int].evidence_ids@;
                let mut present = false;
                let mut k: usize = 0;
                while k < self.citations[p].evidence_ids.len()
                    invariant
                        p < self.citations@.len(),
                        self.citations@ == before,
                        old_ids == self.citations@[p as int].evidence_ids@,
                        k <= old_ids.len(),
                        present == exists|j: int| 0 <= j < k && (#[trigger] old_ids[j])@ == evidence_id@,
                    decreases old_ids.len() - k,
                {
                    if self.citations[p].evidence_ids[k].same(evidence_id) {
                        present = true;
                    }
                    k = k + 1;
                }
                let mut new_ids = copy_evidence_ids(&self.citations[p].evidence_ids);
                if !present {
                    new_ids.push(evidence_id.duplicate());
                }
                let entry = AnswerCitations { answer_id: self.citations[p].answer_id.clone(), evidence_ids: new_ids };
                let ghost new_entry = entry;
                self.citations.set(p, entry);
                proof {
                    let after = self.citations@;
                    assert(after == before.update(p as int, new_entry));
                    assert forall|i: int, j: int|
                        0 <= i < after.len() && 0 <= j < after.len() && i != j implies (#[trigger] after[i]).answer_id@
                        != (#[trigger] after[j]).answer_id@ by {
                        assert(after[i].answer_id@ == before[i].answer_id@);
                        assert(after[j].answer_id@ == before[j].answer_id@);
                    }
                    lemma_cited_at(before, p as int);
                    lemma_cited_at(after, p as int);
                    let olds = id_texts(old_ids);
                    assert(olds.contains(evidence_id@) == present) by {
                        if present {
                            let j = choose|j: int| 0 <= j < old_ids.len() && (#[trigger] old_ids[j])@ == evidence_id@;
                            assert(olds[j] == evidence_id@);
                        }
                        if olds.contains(evidence_id@) {
                            let j = choose|j: int| 0 <= j < olds.len() && olds[j] == evidence_id@;
                            assert(old_ids[j]@ == evidence_id@);
                        }
                    }
                    if !present {
                        assert(id_texts(new_entry.evidence_ids@) =~= olds.push(evidence_id@));
                    }
                    assert forall|a: Seq<char>| a != answer_id@ implies #[trigger] cited_in(after, a) == cited_in(before, a) by {
                        if has_answer(before, a) {
                            let i = choose|i: int| 0 <= i < before.len() && (#[trigger] before[i]).answer_id@ == a;
                            lemma_cited_at(before, i);
                            assert(after[i] == before[i]);
                            lemma_cited_at(after, i);
                        } else {
                            assert forall|i: int| 0 <= i < after.len() implies (#[trigger] after[i]).answer_id@ != a by {
                                if i != p {
                                    assert(after[i] == before[i]);
                                }
                            }
                        }
                    }
                }
            },
            None => {
                let mut ids: Vec<EvidenceRefId> = Vec::new();
                ids.push(evidence_id.duplicate());
                let entry = AnswerCitations { answer_id: owned(answer_id), evidence_ids: ids };
                let ghost new_entry = entry;
                self.citations.push(entry);
                proof {
                    let after = self.citations@;
                    assert(after == before.push(new_entry));
                    assert forall|i: int, j: int|
                        0 <= i < after.len() && 0 <= j < after.len() && i != j implies (#[trigger] after[i]).answer_id@
                        != (#[trigger] after[j]).answer_id@ by {
                        if i < before.len() && j < before.len() {
                            assert(after[i] == before[i] && after[j] == before[j]);
                        } else if i < before.len() {
                            assert(after[i] == before[i]);
                        } else {
                            assert(after[j] == before[j]);
                        }
                    }
                    lemma_cited_at(after, before.len() as int);
                    assert(id_texts(new_entry.evidence_ids@) =~= Seq::<Seq<char>>::empty().push(evidence_id@));
                    assert forall|a: Seq<char>| a != answer_id@ implies #[trigger] cited_in(after, a) == cited_in(before, a) by {
                        if has_answer(before, a) {
                            let i = choose|i: int| 0 <= i < before.len() && (#[trigger] before[i]).answer_id@ == a;
                            lemma_cited_at(before, i);
                            assert(after[i] == before[i]);
                            lemma_cited_at(after, i);
                        } else {
                            assert forall|i: int| 0 <= i < after.len() implies (#[trigger] after[i]).answer_id@ != a by {
                                if i < before.len() {
                                    assert(after[i] == before[i]);
                                }
                            }
                        }
                    }
                }
            },
        }
        Ok(())
    }

    /// The evidence that answer `answer_id` cites, by id.
    pub fn trace_answer(&self, answer_id: &str) -> (r: Result<AnswerCitationTrace, CitationEvidenceError>)
        requires
            self.wf(),
        ensures
            r matches Ok(t) && t.answer_id@ == answer_id@ && lists_matching::<CitationEvidenceRecord>(
                self.evidence_view(),
                cited_by(self.cited(answer_id@)),
                views(t.evidence@),
            ),
    {
        let ghost ids = self.cited(answer_id@);
        let ghost pred = cited_by(ids);
        let cited: Vec<EvidenceRefId> = match self.answer_position(answer_id) {
            Some(p) => {
                proof {
                    lemma_cited_at(self.citations@, p as int);
                }
                copy_evidence_ids(&self.citations[p].evidence_ids)
            },
            None => Vec::new(),
        };
        assert(id_texts(cited@) =~= ids);
        let mut wanted: Vec<bool> = Vec::new();
        let mut i: usize = 0;
        while i < self.evidence.len()
            invariant
                i <= self.evidence@.len(),
                wanted@.len() == i,
                pred == cited_by(ids),
                id_texts(cited@) == ids,
                forall|k: int| 0 <= k < i ==> wanted@[k] == pred(#[trigger] self.evidence@[k]@),
            decreases self.evidence@.len() - i,
        {
            let mut found = false;
            let mut j: usize = 0;
            while j < cited.len()
                invariant
                    i < self.evidence@.len(),
                    j <= cited@.len(),
                    id_texts(cited@) == ids,
                    found == exists|m: int| 0 <= m < j && (#[trigger] cited@[m])@ == self.evidence@[i as int].id@,
                decreases cited@.len() - j,
            {
                if cited[j].same(&self.evidence[i].id) {
                    found = true;
                }
                j = j + 1;
            }
            proof {
                let e = self.evidence@[i as int];
                if found {
                    let m = choose|m: int| 0 <= m < cited@.len() && (#[trigger] cited@[m])@ == e.id@;
                    assert(ids[m] == e.id@);
                }
                if ids.contains(e.id@) {
                    let m = choose|m: int| 0 <= m < ids.len() && ids[m] == e.id@;
                    assert(cited@[m]@ == e.id@);
                }
            }
            wanted.push(found);
            i = i + 1;
        }
        proof {
            lemma_numbered_distinct::<CitationEvidenceRecord>(self.evidence@, "evidence-"@);
            assert(views(self.evidence@) =~= self.evidence@);
        }
        let evidence = select_sorted(&self.evidence, &wanted, Ghost(pred));
        proof {
            assert(views(self.evidence@) =~= self.evidence@);
        }
        Ok(AnswerCitationTrace { answer_id: owned(answer_id), evidence })
    }
}

/// Copies of the ids of `v`.
fn copy_evidence_ids(v: &Vec<EvidenceRefId>) -> (r: Vec<EvidenceRefId>)
    ensures
        r@ == v@,
{
    let mut out: Vec<EvidenceRefId> = Vec::new();
    let mut i: usize = 0;
    while i < v.len()
        invariant
            i <= v@.len(),
            out@ == v@.take(i as int),
        decreases v@.len() - i,
    {
        out.push(v[i].duplicate());
        proof {
            assert(v@.take(i + 1) == v@.take(i as int).push(v@[i as int]));
        }
        i = i + 1;
    }
    proof {
        assert(v@.take(v@.len() as int) == v@);
    }
    out
}

/// Identifier of an asset cited by an answer.
#[derive(Debug, Clone, PartialEq, Eq, Hash)]
pub struct AssetId(pub String);

impl View for AssetId {
    type V = Seq<char>;

    open spec fn view(&self) -> Seq<char> {
        self.0@
    }
}

impl IntoText for AssetId {
    open spec fn text(&self) -> Seq<char> {
        self@
    }

    fn into_text(self) -> (r: String) {
        self.0
    }
}

impl AssetId {
    /// Builds the id from text.
    pub fn from<T: IntoText>(s: T) -> (r: AssetId)
        ensures
            r@ == s.text(),
    {
        AssetId(s.into_text())
    }

    /// An equal copy of the id.
    pub fn duplicate(&self) -> (r: AssetId)
        ensures
            r == *self,
    {
        AssetId(self.0.clone())
    }
}

/// Evidence reference captured inside an answer cache package.
#[derive(Debug, Clone, PartialEq, Eq)]
pub enum AnswerEvidenceRef {
    KnowledgeEntry { knowledge_entry_id: KnowledgeEntryId, quote: Option<String> },
    ConversationMessage { conversation_id: String, message_id: String },
    Artifact { artifact_id: ArtifactId },
    Asset { asset_id: AssetId },
}

impl AnswerEvidenceRef {
    /// Evidence from a knowledge entry, with an optional quote.
    pub fn knowledge_entry(knowledge_entry_id: KnowledgeEntryId, quote: Option<String>) -> (r: Self)
        ensures
            r == (AnswerEvidenceRef::KnowledgeEntry { knowledge_entry_id, quote }),
    {
        AnswerEvidenceRef::KnowledgeEntry { knowledge_entry_id, quote }
    }

    /// Evidence from a conversation message.
    pub fn conversation_message<C: IntoText, M: IntoText>(conversation_id: C, message_id: M) -> (r: Self)
        ensures
            r matches AnswerEvidenceRef::ConversationMessage { conversation_id: c, message_id: m }
                && c@ == conversation_id.text() && m@ == message_id.text(),
    {
        AnswerEvidenceRef::ConversationMessage {
            conversation_id: conversation_id.into_text(),
            message_id: message_id.into_text(),
        }
    }

    /// An equal copy.
    pub fn duplicate(&self) -> (r: Self)
        ensures
            r == *self,
    {
        match self {
            AnswerEvidenceRef::KnowledgeEntry { knowledge_entry_id, quote } => AnswerEvidenceRef::KnowledgeEntry {
                knowledge_entry_id: knowledge_entry_id.duplicate(),
                quote: copy_opt_string(quote),
            },
            AnswerEvidenceRef::ConversationMessage { conversation_id, message_id } =>
                AnswerEvidenceRef::ConversationMessage {
                conversation_id: conversation_id.clone(),
                message_id: message_id.clone(),
            },
            AnswerEvidenceRef::Artifact { artifact_id } => AnswerEvidenceRef::Artifact {
                artifact_id: artifact_id.duplicate(),
            },
            AnswerEvidenceRef::Asset { asset_id } => AnswerEvidenceRef::Asset { asset_id: asset_id.duplicate() },
        }
    }
}

fn copy_evidence_refs(v: &Vec<AnswerEvidenceRef>) -> (r: Vec<AnswerEvidenceRef>)
    ensures
        r@ == v@,
{
    let mut out: Vec<AnswerEvidenceRef> = Vec::new();
    let mut i: usize = 0;
    while i < v.len()
        invariant
            i <= v@.len(),
            out@ == v@.take(i as int),
        decreases v@.len() - i,
    {
        out.push(v[i].duplicate());
        proof {
            assert(v@.take(i + 1) == v@.take(i as int).push(v@[i as int]));
        }
        i = i + 1;
    }
    proof {
        assert(v@.take(v@.len() as int) == v@);
    }
    out
}

/// The knowledge entries that `refs` cite, in order of first citation,
/// each id once.
pub open spec fn related_ids(refs: Seq<AnswerEvidenceRef>) -> Seq<KnowledgeEntryId>
    decreases refs.len(),
{
    if refs.len() == 0 {
        Seq::empty()
    } else {
        let acc = related_ids(refs.drop_last());
        match refs.last() {
            AnswerEvidenceRef::KnowledgeEntry { knowledge_entry_id, .. } => if has_entry_id(
                acc,
                knowledge_entry_id@,
            ) {
                acc
            } else {
                acc.push(knowledge_entry_id)
            },
            _ => acc,
        }
    }
}

/// Versioned answer package linked to a question and to evidence; times
/// are Unix seconds.
#[derive(Debug, Clone, PartialEq, Eq)]
pub struct AnswerCachePackage {
    pub id: AnswerCachePackageId,
    pub question_id: Option<QuestionLedgerEntryId>,
    pub work_object_id: Option<WorkObjectId>,
    pub answer_id: String,
    pub version: AnswerCachePackageVersion,
    pub answer_markdown: String,
    pub evidence_refs: Vec<AnswerEvidenceRef>,
    pub related_knowledge_entry_ids: Vec<KnowledgeEntryId>,
    pub freshness_policy: AnswerFreshnessPolicy,
    pub created_at: i64,
    pub updated_at: i64,
}

/// An answer cache package as values.
pub struct PackageView {
    pub id: Seq<char>,
    pub question_id: Option<QuestionLedgerEntryId>,
    pub work_object_id: Option<WorkObjectId>,
    pub answer_id: Seq<char>,
    pub version: u32,
    pub answer_markdown: Seq<char>,
    pub evidence_refs: Seq<AnswerEvidenceRef>,
    pub related_knowledge_entry_ids: Seq<KnowledgeEntryId>,
    pub freshness_policy: AnswerFreshnessPolicy,
    pub created_at: i64,
    pub updated_at: i64,
}

impl View for AnswerCachePackage {
    type V = PackageView;

    open spec fn view(&self) -> PackageView {
        PackageView {
            id: self.id@,
            question_id: self.question_id,
            work_object_id: self.work_object_id,
            answer_id: self.answer_id@,
            version: self.version.value_spec(),
            answer_markdown: self.answer_markdown@,
            evidence_refs: self.evidence_refs@,
            related_knowledge_entry_ids: self.related_knowledge_entry_ids@,
            freshness_policy: self.freshness_policy,
            created_at: self.created_at,
            updated_at: self.updated_at,
        }
    }
}

impl Keyed for AnswerCachePackage {
    open spec fn key_of(v: PackageView) -> Seq<char> {
        v.id
    }

    fn key_str(&self) -> (r: &str) {
        self.id.as_str()
    }

    fn copy(&self) -> (r: Self) {
        self.duplicate()
    }
}

impl AnswerCachePackage {
    /// A copy with the same value.
    pub fn duplicate(&self) -> (r: Self)
        ensures
            r@ == self@,
    {
        AnswerCachePackage {
            id: self.id.duplicate(),
            question_id: match &self.question_id {
                Some(q) => Some(q.duplicate()),
                None => None,
            },
            work_object_id: match &self.work_object_id {
                Some(w) => Some(w.duplicate()),
                None => None,
            },
            answer_id: self.answer_id.clone(),
            version: self.version,
            answer_markdown: self.answer_markdown.clone(),
            evidence_refs: copy_evidence_refs(&self.evidence_refs),
            related_knowledge_entry_ids: copy_entry_ids(&self.related_knowledge_entry_ids),
            freshness_policy: AnswerFreshnessPolicy { expires_after_days: self.freshness_policy.expires_after_days },
            created_at: self.created_at,
            updated_at: self.updated_at,
        }
    }
}

/// Request to create a new answer cache package version; the time is Unix
/// seconds.
#[derive(Debug, Clone, PartialEq, Eq)]
pub struct AnswerCacheCreateRequest {
    pub question_id: Option<QuestionLedgerEntryId>,
    pub work_object_id: Option<WorkObjectId>,
    pub answer_id: String,
    pub answer_markdown: String,
    pub evidence_refs: Vec<AnswerEvidenceRef>,
    pub freshness_policy: AnswerFreshnessPolicy,
    pub created_at: i64,
}

impl AnswerCacheCreateRequest {
    /// A request with no question, work object or evidence, never expiring.
    pub fn new<A: IntoText, M: IntoText>(answer_id: A, answer_markdown: M, created_at: i64) -> (r: Self)
        ensures
            r.question_id is None,
            r.work_object_id is None,
            r.answer_id@ == answer_id.text(),
            r.answer_markdown@ == answer_markdown.text(),
            r.evidence_refs@.len() == 0,
            r.freshness_policy.expires_after_days is None,
            r.created_at == created_at,
    {
        AnswerCacheCreateRequest {
            question_id: None,
            work_object_id: None,
            answer_id: answer_id.into_text(),
            answer_markdown: answer_markdown.into_text(),
            evidence_refs: Vec::new(),
            freshness_policy: AnswerFreshnessPolicy::default(),
            created_at,
        }
    }

    /// The request with its question set.
    pub fn with_question_id(self, question_id: QuestionLedgerEntryId) -> (r: Self)
        ensures
            r == (AnswerCacheCreateRequest { question_id: Some(question_id), ..self }),
    {
        AnswerCacheCreateRequest { question_id: Some(question_id), ..self }
    }

    /// The request with its work object set.
    pub fn with_work_object_id(self, work_object_id: WorkObjectId) -> (r: Self)
        ensures
            r == (AnswerCacheCreateRequest { work_object_id: Some(work_object_id), ..self }),
    {
        AnswerCacheCreateRequest { work_object_id: Some(work_object_id), ..self }
    }

    /// The request with its evidence replaced.
    pub fn with_evidence_refs(self, evidence_refs: Vec<AnswerEvidenceRef>) -> (r: Self)
        ensures
            r == (AnswerCacheCreateRequest { evidence_refs, ..self }),
    {
        AnswerCacheCreateRequest { evidence_refs, ..self }
    }

    /// The request with its freshness policy replaced.
    pub fn with_freshness_policy(self, freshness_policy: AnswerFreshnessPolicy) -> (r: Self)
        ensures
            r == (AnswerCacheCreateRequest { freshness_policy, ..self }),
    {
        AnswerCacheCreateRequest { freshness_policy, ..self }
    }

    /// The knowledge entries the evidence cites, in order, each once.
    pub fn related_knowledge_entry_ids(&self) -> (r: Vec<KnowledgeEntryId>)
        ensures
            r@ == related_ids(self.evidence_refs@),
    {
        let mut ids: Vec<KnowledgeEntryId> = Vec::new();
        let mut i: usize = 0;
        while i < self.evidence_refs.len()
            invariant
                i <= self.evidence_refs@.len(),
                ids@ == related_ids(self.evidence_refs@.take(i as int)),
            decreases self.evidence_refs@.len() - i,
        {
            proof {
                assert(self.evidence_refs@.take(i + 1).drop_last() =~= self.evidence_refs@.take(i as int));
            }
            match &self.evidence_refs[i] {
                AnswerEvidenceRef::KnowledgeEntry { knowledge_entry_id, .. } => {
                    if !contains_entry_id(&ids, knowledge_entry_id) {
                        ids.push(knowledge_entry_id.duplicate());
                    }
                },
                _ => {},
            }
            i = i + 1;
        }
        proof {
            assert(self.evidence_refs@.take(self.evidence_refs@.len() as int) =~= self.evidence_refs@);
        }
        ids
    }
}

/// The highest version among the packages of `s` for answer `a`, zero
/// when there is none.
pub open spec fn max_version(s: Seq<PackageView>, a: Seq<char>) -> u32
    decreases s.len(),
{
    if s.len() == 0 {
        0
    } else {
        let m = max_version(s.drop_last(), a);
        if s.last().answer_id == a && s.last().version > m {
            s.last().version
        } else {
            m
        }
    }
}

/// The package that a request creates as the `n`-th (from zero) of a
/// store, with version `v`.
pub open spec fn created_package(request: AnswerCacheCreateRequest, n: nat, v: u32) -> PackageView {
    PackageView {
        id: "answer-cache-"@ + decimal(n + 1),
        question_id: request.question_id,
        work_object_id: request.work_object_id,
        answer_id: request.answer_id@,
        version: v,
        answer_markdown: request.answer_markdown@,
        evidence_refs: request.evidence_refs@,
        related_knowledge_entry_ids: related_ids(request.evidence_refs@),
        freshness_policy: request.freshness_policy,
        created_at: request.created_at,
        updated_at: request.created_at,
    }
}

/// Whether package `a` is preferred to package `b` as the latest: a higher
/// version, then a later update, then a smaller id.
pub open spec fn ranks_before(a: PackageView, b: PackageView) -> bool {
    a.version > b.version || (a.version == b.version && (a.updated_at > b.updated_at || (a.updated_at
        == b.updated_at && text_lt(a.id, b.id))))
}

proof fn lemma_ranks_before_transitive(a: PackageView, b: PackageView, c: PackageView)
    requires
        ranks_before(a, b),
        ranks_before(b, c),
    ensures
        ranks_before(a, c),
{
    if a.version == b.version && b.version == c.version && a.updated_at == b.updated_at && b.updated_at
        == c.updated_at {
        lemma_text_lt_transitive(a.id, b.id, c.id);
    }
}

proof fn lemma_ranks_before_total(a: PackageView, b: PackageView)
    requires
        a.id != b.id,
    ensures
        ranks_before(a, b) || ranks_before(b, a),
{
    lemma_text_lt_total(a.id, b.id);
}

/// Whether a package answers question `q`.
pub open spec fn answers_question(q: Seq<char>) -> spec_fn(PackageView) -> bool {
    |p: PackageView| p.question_id matches Some(x) && x@ == q
}

/// Whether a package relates to knowledge entry `k`.
pub open spec fn relates_to(k: Seq<char>) -> spec_fn(PackageView) -> bool {
    |p: PackageView| has_entry_id(p.related_knowledge_entry_ids, k)
}

/// Whether a package is attached to work object `w`.
pub open spec fn package_on(w: Seq<char>) -> spec_fn(PackageView) -> bool {
    |p: PackageView| p.work_object_id matches Some(x) && x@ == w
}

/// In-memory answer cache; packages are kept in creation order.
#[derive(Debug, Clone)]
pub struct MemoryAnswerCacheStore {
    packages: Vec<AnswerCachePackage>,
}

impl View for MemoryAnswerCacheStore {
    type V = Seq<PackageView>;

    closed spec fn view(&self) -> Seq<PackageView> {
        views(self.packages@)
    }
}

impl Default for MemoryAnswerCacheStore {
    fn default() -> (r: Self)
        ensures
            r@.len() == 0,
            r.wf(),
    {
        Self::new()
    }
}

impl MemoryAnswerCacheStore {
    /// The number of packages.
    pub fn len(&self) -> (r: usize)
        ensures
            r == self@.len(),
    {
        self.packages.len()
    }

    /// The store's invariant: package `i` has the id `answer-cache-{i + 1}`.
    pub open spec fn wf(&self) -> bool {
        numbered::<AnswerCachePackage>(self@, "answer-cache-"@)
    }

    /// An empty store.
    pub fn new() -> (r: Self)
        ensures
            r@.len() == 0,
            r.wf(),
    {
        let r = MemoryAnswerCacheStore { packages: Vec::new() };
        assert(r@ =~= Seq::<PackageView>::empty());
        r
    }

    /// The highest version stored for answer `answer_id`, zero if none.
    fn highest_version(&self, answer_id: &str) -> (r: u32)
        ensures
            r == max_version(self@, answer_id@),
    {
        let mut m: u32 = 0;
        let mut i: usize = 0;
        while i < self.packages.len()
            invariant
                i <= self.packages@.len(),
                m == max_version(self@.take(i as int), answer_id@),
            decreases self.packages@.len() - i,
        {
            proof {
                assert(self@.take(i + 1).drop_last() =~= self@.take(i as int));
                assert(self@[i as int] == self.packages@[i as int]@);
            }
            let p = &self.packages[i];
            let v = p.version.value();
            if str_eq(p.answer_id.as_str(), answer_id) && v > m {
                m = v;
            }
            i = i + 1;
        }
        proof {
            assert(self@.take(self@.len() as int) =~= self@);
        }
        m
    }

    /// Stores a new version of an answer under the next id: its version is
    /// one above the highest stored for the same answer. Blank markdown is
    /// refused, and so is a version past the largest one.
    pub fn create_package(&mut self, request: AnswerCacheCreateRequest) -> (r: Result<
        AnswerCachePackage,
        AnswerCacheError,
    >)
        requires
            old(self).wf(),
            old(self)@.len() < usize::MAX,
        ensures
            final(self).wf(),
            blank(request.answer_markdown@) ==> r == Err::<AnswerCachePackage, AnswerCacheError>(
                AnswerCacheError::BlankAnswer,
            ),
            !blank(request.answer_markdown@) && max_version(old(self)@, request.answer_id@) == u32::MAX
                ==> r == Err::<AnswerCachePackage, AnswerCacheError>(AnswerCacheError::InvalidVersion),
            r is Err ==> final(self)@ == old(self)@,
            !blank(request.answer_markdown@) && max_version(old(self)@, request.answer_id@) < u32::MAX
                ==> (r matches Ok(p) && p@ == created_package(
                request,
                old(self)@.len(),
                (max_version(old(self)@, request.answer_id@) + 1) as u32,
            )) && final(self)@ == old(self)@.push(
                created_package(
                    request,
                    old(self)@.len(),
                    (max_version(old(self)@, request.answer_id@) + 1) as u32,
                ),
            ),
    {
        if is_blank(request.answer_markdown.as_str()) {
            return Err(AnswerCacheError::BlankAnswer);
        }
        let ghost req = request;
        let related = request.related_knowledge_entry_ids();
        let n = self.packages.len();
        let id = AnswerCachePackageId(numbered_id("answer-cache-", n));
        let highest = self.highest_version(request.answer_id.as_str());
        let version = match AnswerCachePackageVersion::new(highest.wrapping_add(1)) {
            Ok(v) => v,
            Err(e) => {
                return Err(e);
            },
        };
        let package = AnswerCachePackage {
            id,
            question_id: request.question_id,
            work_object_id: request.work_object_id,
            answer_id: request.answer_id,
            version,
            answer_markdown: request.answer_markdown,
            related_knowledge_entry_ids: related,
            evidence_refs: request.evidence_refs,
            freshness_policy: request.freshness_policy,
            created_at: request.created_at,
            updated_at: request.created_at,
        };
        let copy = package.duplicate();
        let ghost before = self@;
        self.packages.push(package);
        proof {
            assert(self@ =~= before.push(created_package(req, n as nat, (highest + 1) as u32)));
        }
        Ok(copy)
    }

    /// The package with `id`, if any.
    pub fn get_package(&self, id: &AnswerCachePackageId) -> (r: Result<
        Option<AnswerCachePackage>,
        AnswerCacheError,
    >)
        requires
            self.wf(),
        ensures
            r matches Ok(o) && match o {
                Some(p) => keyed::<AnswerCachePackage>(self@, id@) == Some(p@),
                None => !has_key::<AnswerCachePackage>(self@, id@),
            },
    {
        match position_of(&self.packages, id.as_str()) {
            Some(i) => {
                proof {
                    lemma_numbered_distinct::<AnswerCachePackage>(self@, "answer-cache-"@);
                    assert(self@[i as int] == self.packages@[i as int]@);
                    lemma_keyed_at::<AnswerCachePackage>(self@, i as int);
                }
                Ok(Some(self.packages[i].duplicate()))
            },
            None => Ok(None),
        }
    }

    /// The latest package for question `question_id`: the highest version,
    /// then the latest update, then the smallest id.
    pub fn latest_for_question(&self, question_id: &QuestionLedgerEntryId) -> (r: Result<
        Option<AnswerCachePackage>,
        AnswerCacheError,
    >)
        requires
            self.wf(),
        ensures
            r matches Ok(o) && match o {
                Some(p) => self@.contains(p@) && answers_question(question_id@)(p@) && forall|i: int|
                    0 <= i < self@.len() && answers_question(question_id@)(#[trigger] self@[i]) ==> self@[i]
                        == p@ || ranks_before(p@, self@[i]),
                None => forall|i: int| 0 <= i < self@.len() ==> !answers_question(question_id@)(#[trigger] self@[i]),
            },
    {
        let ghost pred = answers_question(question_id@);
        proof {
            lemma_numbered_distinct::<AnswerCachePackage>(self@, "answer-cache-"@);
        }
        let mut best: Option<usize> = None;
        let mut i: usize = 0;
        while i < self.packages.len()
            invariant
                i <= self.packages@.len(),
                pred == answers_question(question_id@),
                keys_distinct::<AnswerCachePackage>(self@),
                match best {
                    Some(b) => b < i && pred(self@[b as int]) && forall|k: int|
                        0 <= k < i && pred(#[trigger] self@[k]) ==> k == b || ranks_before(
                            self@[b as int],
                            self@[k],
                        ),
                    None => forall|k: int| 0 <= k < i ==> !pred(#[trigger] self@[k]),
                },
            decreases self.packages@.len() - i,
        {
            proof {
                assert(self@[i as int] == self.packages@[i as int]@);
            }
            let p = &self.packages[i];
            let on_question = match &p.question_id {
                Some(q) => q.same(question_id),
                None => false,
            };
            if on_question {
                match best {
                    None => {
                        best = Some(i);
                    },
                    Some(b) => {
                        proof {
                            assert(self@[b as int] == self.packages@[b as int]@);
                        }
                        let q = &self.packages[b];
                        let pv = p.version.value();
                        let qv = q.version.value();
                        let better = pv > qv || (pv == qv && (p.updated_at > q.updated_at || (p.updated_at
                            == q.updated_at && text_less(
                            chars_of(p.id.as_str()).as_slice(),
                            chars_of(q.id.as_str()).as_slice(),
                        ))));
                        proof {
                            assert(AnswerCachePackage::key_of(self@[b as int]) != AnswerCachePackage::key_of(self@[i as int]));
                            lemma_ranks_before_total(self@[b as int], self@[i as int]);
                            if better {
                                assert forall|k: int| 0 <= k < i + 1 && pred(#[trigger] self@[k]) implies k == i
                                    || ranks_before(self@[i as int], self@[k]) by {
                                    if k < i && k != b {
                                        lemma_ranks_before_transitive(self@[i as int], self@[b as int], self@[k]);
                                    }
                                }
                            }
                        }
                        if better {
                            best = Some(i);
                        }
                    },
                }
            }
            i = i + 1;
        }
        match best {
            Some(b) => {
                proof {
                    assert(self@[b as int] == self.packages@[b as int]@);
                }
                Ok(Some(self.packages[b].duplicate()))
            },
            None => Ok(None),
        }
    }

    /// The packages that relate to knowledge entry `knowledge_entry_id`, by id.
    pub fn list_by_knowledge_entry(&self, knowledge_entry_id: &KnowledgeEntryId) -> (r: Result<
        Vec<AnswerCachePackage>,
        AnswerCacheError,
    >)
        requires
            self.wf(),
        ensures
            r matches Ok(list) && lists_matching::<AnswerCachePackage>(
                self@,
                relates_to(knowledge_entry_id@),
                views(list@),
            ),
    {
        let ghost pred = relates_to(knowledge_entry_id@);
        let mut wanted: Vec<bool> = Vec::new();
        let mut i: usize = 0;
        while i < self.packages.len()
            invariant
                i <= self.packages@.len(),
                wanted@.len() == i,
                pred == relates_to(knowledge_entry_id@),
                forall|k: int| 0 <= k < i ==> wanted@[k] == pred(#[trigger] self.packages@[k]@),
            decreases self.packages@.len() - i,
        {
            wanted.push(contains_entry_id(&self.packages[i].related_knowledge_entry_ids, knowledge_entry_id));
            i = i + 1;
        }
        proof {
            lemma_numbered_distinct::<AnswerCachePackage>(self@, "answer-cache-"@);
        }
        Ok(select_sorted(&self.packages, &wanted, Ghost(pred)))
    }

    /// The packages attached to `work_object_id`, by id.
    pub fn list_by_work_object(&self, work_object_id: &WorkObjectId) -> (r: Result<
        Vec<AnswerCachePackage>,
        AnswerCacheError,
    >)
        requires
            self.wf(),
        ensures
            r matches Ok(list) && lists_matching::<AnswerCachePackage>(
                self@,
                package_on(work_object_id@),
                views(list@),
            ),
    {
        let ghost pred = package_on(work_object_id@);
        let mut wanted: Vec<bool> = Vec::new();
        let mut i: usize = 0;
        while i < self.packages.len()
            invariant
                i <= self.packages@.len(),
                wanted@.len() == i,
                pred == package_on(work_object_id@),
                forall|k: int| 0 <= k < i ==> wanted@[k] == pred(#[trigger] self.packages@[k]@),
            decreases self.packages@.len() - i,
        {
            let w = match &self.packages[i].work_object_id {
                Some(w) => str_eq(w.as_str(), work_object_id.as_str()),
                None => false,
            };
            wanted.push(w);
            i = i + 1;
        }
        proof {
            lemma_numbered_distinct::<AnswerCachePackage>(self@, "answer-cache-"@);
        }
        Ok(select_sorted(&self.packages, &wanted, Ghost(pred)))
    }
}

impl Keyed for KnowledgeEntryId {
    open spec fn key_of(v: Seq<char>) -> Seq<char> {
        v
    }

    fn key_str(&self) -> (r: &str) {
        self.as_str()
    }

    fn copy(&self) -> (r: Self) {
        self.duplicate()
    }
}

impl Keyed for QuestionLedgerEntryId {
    open spec fn key_of(v: Seq<char>) -> Seq<char> {
        v
    }

    fn key_str(&self) -> (r: &str) {
        self.as_str()
    }

    fn copy(&self) -> (r: Self) {
        self.duplicate()
    }
}

impl Keyed for AnswerCachePackageId {
    open spec fn key_of(v: Seq<char>) -> Seq<char> {
        v
    }

    fn key_str(&self) -> (r: &str) {
        self.as_str()
    }

    fn copy(&self) -> (r: Self) {
        self.duplicate()
    }
}

/// Adds the ids of `ids` that `out`, sorted, does not hold yet.
fn merge_entry_ids(out: &mut Vec<KnowledgeEntryId>, ids: &Vec<KnowledgeEntryId>)
    requires
        keys_increasing::<KnowledgeEntryId>(views(old(out)@)),
    ensures
        keys_increasing::<KnowledgeEntryId>(views(final(out)@)),
        forall|t: Seq<char>| #[trigger]
            views(final(out)@).contains(t) <==> (views(old(out)@).contains(t) || has_entry_id(ids@, t)),
{
    let ghost start = views(out@);
    let mut i: usize = 0;
    while i < ids.len()
        invariant
            i <= ids@.len(),
            keys_increasing::<KnowledgeEntryId>(views(out@)),
            forall|t: Seq<char>| #[trigger]
                views(out@).contains(t) <==> (start.contains(t) || exists|j: int| 0 <= j < i && (#[trigger] ids@[j])@ == t),
        decreases ids@.len() - i,
    {
        let k = &ids[i];
        let ghost before = views(out@);
        match position_of(out, k.as_str()) {
            Some(p) => {
                proof {
                    assert(before[p as int] == out@[p as int]@);
                    assert(before.contains(k@));
                }
            },
            None => {
                insert_sorted(out, k.duplicate());
            },
        }
        proof {
            assert forall|t: Seq<char>| #[trigger]
                views(out@).contains(t) <==> (start.contains(t) || exists|j: int| 0 <= j < i + 1 && (#[trigger] ids@[j])@ == t) by {
                if exists|j: int| 0 <= j < i + 1 && (#[trigger] ids@[j])@ == t {
                    let j = choose|j: int| 0 <= j < i + 1 && (#[trigger] ids@[j])@ == t;
                    if j < i {
                        assert(before.contains(t));
                    }
                }
                if t == k@ {
                    assert(ids@[i as int]@ == t);
                }
            }
        }
        i = i + 1;
    }
    proof {
        assert forall|t: Seq<char>| #[trigger]
            views(out@).contains(t) <==> (start.contains(t) || has_entry_id(ids@, t)) by {
            if has_entry_id(ids@, t) {
                let j = choose|j: int| 0 <= j < ids@.len() && (#[trigger] ids@[j])@ == t;
                assert(ids@[j]@ == t);
            }
        }
    }
}

/// Query for the entities linked to a work object.
#[derive(Debug, Clone, PartialEq, Eq)]
pub struct WorkObjectCrossEntityQuery {
    pub work_object_id: WorkObjectId,
}

impl WorkObjectCrossEntityQuery {
    /// A query for `work_object_id`.
    pub fn new(work_object_id: WorkObjectId) -> (r: Self)
        ensures
            r.work_object_id == work_object_id,
    {
        WorkObjectCrossEntityQuery { work_object_id }
    }
}

/// The entities linked to a work object.
#[derive(Debug, Clone, PartialEq, Eq)]
pub struct WorkObjectCrossEntityResult {
    pub work_object_id: WorkObjectId,
    pub question_ids: Vec<QuestionLedgerEntryId>,
    pub answer_ids: Vec<AnswerCachePackageId>,
    pub knowledge_entry_ids: Vec<KnowledgeEntryId>,
}

/// Whether text `t` is the id of a question of `ledger` on work object `w`.
pub open spec fn is_question_on(ledger: Seq<QuestionView>, w: Seq<char>, t: Seq<char>) -> bool {
    exists|i: int| 0 <= i < ledger.len() && question_on(w)(#[trigger] ledger[i]) && ledger[i].id == t
}

/// Whether text `t` is the id of a package of `cache` on work object `w`.
pub open spec fn is_package_on(cache: Seq<PackageView>, w: Seq<char>, t: Seq<char>) -> bool {
    exists|i: int| 0 <= i < cache.len() && package_on(w)(#[trigger] cache[i]) && cache[i].id == t
}

/// Whether knowledge entry `t` is related to a question of `ledger` or a
/// package of `cache` on work object `w`.
pub open spec fn is_related_on(ledger: Seq<QuestionView>, cache: Seq<PackageView>, w: Seq<char>, t: Seq<char>) -> bool {
    (exists|i: int|
        0 <= i < ledger.len() && question_on(w)(#[trigger] ledger[i]) && has_entry_id(
            ledger[i].related_knowledge_entry_ids,
            t,
        )) || (exists|i: int|
        0 <= i < cache.len() && package_on(w)(#[trigger] cache[i]) && has_entry_id(
            cache[i].related_knowledge_entry_ids,
            t,
        ))
}

/// Cross-entity coordinator that queries the question ledger and the
/// answer cache by work object.
#[derive(Debug, Clone)]
pub struct WorkObjectCrossEntityCoordinator {
    pub question_ledger: MemoryQuestionLedger,
    pub answer_cache: MemoryAnswerCacheStore,
}

impl WorkObjectCrossEntityCoordinator {
    /// A coordinator over a ledger and a cache.
    pub fn new(question_ledger: MemoryQuestionLedger, answer_cache: MemoryAnswerCacheStore) -> (r: Self)
        ensures
            r.question_ledger@ == question_ledger@,
            r.answer_cache@ == answer_cache@,
    {
        WorkObjectCrossEntityCoordinator { question_ledger, answer_cache }
    }

    /// The ids of the questions and answers on the work object, by id, and
    /// the knowledge entries related to any of them, by id, each once.
    pub fn query(&self, query: &WorkObjectCrossEntityQuery) -> (r: Result<WorkObjectCrossEntityResult, String>)
        requires
            self.question_ledger.wf(),
            self.answer_cache.wf(),
        ensures
            r matches Ok(res) && {
                let w = query.work_object_id@;
                let ledger = self.question_ledger@;
                let cache = self.answer_cache@;
                &&& res.work_object_id == query.work_object_id
                &&& keys_increasing::<QuestionLedgerEntryId>(views(res.question_ids@))
                &&& (forall|t: Seq<char>| #[trigger] views(res.question_ids@).contains(t) <==> is_question_on(ledger, w, t))
                &&& keys_increasing::<AnswerCachePackageId>(views(res.answer_ids@))
                &&& (forall|t: Seq<char>| #[trigger] views(res.answer_ids@).contains(t) <==> is_package_on(cache, w, t))
                &&& keys_increasing::<KnowledgeEntryId>(views(res.knowledge_entry_ids@))
                &&& (forall|t: Seq<char>| #[trigger] views(res.knowledge_entry_ids@).contains(t) <==> is_related_on(ledger, cache, w, t))
            },
    {
        let ghost w = query.work_object_id@;
        let ghost ledger = self.question_ledger@;
        let ghost cache = self.answer_cache@;
        let questions = match self.question_ledger.list_by_work_object(&query.work_object_id) {
            Ok(q) => q,
            Err(_) => Vec::new(),
        };
        let answers = match self.answer_cache.list_by_work_object(&query.work_object_id) {
            Ok(a) => a,
            Err(_) => Vec::new(),
        };
        let ghost qv = views(questions@);
        let ghost av = views(answers@);
        let mut knowledge_entry_ids: Vec<KnowledgeEntryId> = Vec::new();
        let mut question_ids: Vec<QuestionLedgerEntryId> = Vec::new();
        let mut i: usize = 0;
        assert(views(knowledge_entry_ids@) =~= Seq::<Seq<char>>::empty());
        while i < questions.len()
            invariant
                i <= questions@.len(),
                qv == views(questions@),
                views(question_ids@) == qv.take(i as int).map_values(|e: QuestionView| e.id),
                keys_increasing::<KnowledgeEntryId>(views(knowledge_entry_ids@)),
                forall|t: Seq<char>| #[trigger]
                    views(knowledge_entry_ids@).contains(t) <==> exists|j: int|
                        0 <= j < i && has_entry_id((#[trigger] qv[j]).related_knowledge_entry_ids, t),
            decreases questions@.len() - i,
        {
            let ghost before = views(knowledge_entry_ids@);
            merge_entry_ids(&mut knowledge_entry_ids, &questions[i].related_knowledge_entry_ids);
            let ghost old_ids = views(question_ids@);
            question_ids.push(questions[i].id.duplicate());
            proof {
                assert(qv[i as int] == questions@[i as int]@);
                assert(views(question_ids@) =~= old_ids.push(qv[i as int].id));
                assert(qv.take(i + 1).map_values(|e: QuestionView| e.id) =~= qv.take(i as int).map_values(
                    |e: QuestionView| e.id,
                ).push(qv[i as int].id));
                assert forall|t: Seq<char>| #[trigger]
                    views(knowledge_entry_ids@).contains(t) <==> exists|j: int|
                        0 <= j < i + 1 && has_entry_id((#[trigger] qv[j]).related_knowledge_entry_ids, t) by {
                    if exists|j: int| 0 <= j < i + 1 && has_entry_id((#[trigger] qv[j]).related_knowledge_entry_ids, t) {
                        let j = choose|j: int| 0 <= j < i + 1 && has_entry_id((#[trigger] qv[j]).related_knowledge_entry_ids, t);
                        if j < i {
                            assert(before.contains(t));
                        }
                    }
                }
            }
            i = i + 1;
        }
        let mut answer_ids: Vec<AnswerCachePackageId> = Vec::new();
        let mut k: usize = 0;
        while k < answers.len()
            invariant
                k <= answers@.len(),
                av == views(answers@),
                views(answer_ids@) == av.take(k as int).map_values(|p: PackageView| p.id),
                keys_increasing::<KnowledgeEntryId>(views(knowledge_entry_ids@)),
                forall|t: Seq<char>| #[trigger]
                    views(knowledge_entry_ids@).contains(t) <==> ((exists|j: int|
                        0 <= j < qv.len() && has_entry_id((#[trigger] qv[j]).related_knowledge_entry_ids, t))
                        || exists|j: int| 0 <= j < k && has_entry_id((#[trigger] av[j]).related_knowledge_entry_ids, t)),
            decreases answers@.len() - k,
        {
            let ghost before = views(knowledge_entry_ids@);
            merge_entry_ids(&mut knowledge_entry_ids, &answers[k].related_knowledge_entry_ids);
            let ghost old_ids = views(answer_ids@);
            answer_ids.push(answers[k].id.duplicate());
            proof {
                assert(av[k as int] == answers@[k as int]@);
                assert(views(answer_ids@) =~= old_ids.push(av[k as int].id));
                assert(av.take(k + 1).map_values(|p: PackageView| p.id) =~= av.take(k as int).map_values(
                    |p: PackageView| p.id,
                ).push(av[k as int].id));
                assert forall|t: Seq<char>| #[trigger]
                    views(knowledge_entry_ids@).contains(t) <==> ((exists|j: int|
                        0 <= j < qv.len() && has_entry_id((#[trigger] qv[j]).related_knowledge_entry_ids, t))
                        || exists|j: int| 0 <= j < k + 1 && has_entry_id((#[trigger] av[j]).related_knowledge_entry_ids, t)) by {
                    if exists|j: int| 0 <= j < k + 1 && has_entry_id((#[trigger] av[j]).related_knowledge_entry_ids, t) {
                        let j = choose|j: int| 0 <= j < k + 1 && has_entry_id((#[trigger] av[j]).related_knowledge_entry_ids, t);
                        if j < k {
                            assert(before.contains(t));
                        }
                    }
                }
            }
            k = k + 1;
        }
        proof {
            let qids = views(question_ids@);
            let aids = views(answer_ids@);
            assert(qv.take(qv.len() as int) =~= qv);
            assert(av.take(av.len() as int) =~= av);
            assert forall|a: int, b: int| 0 <= a < b < qids.len() implies text_lt(
                QuestionLedgerEntryId::key_of(#[trigger] qids[a]),
                QuestionLedgerEntryId::key_of(#[trigger] qids[b]),
            ) by {
                assert(qids[a] == qv[a].id && qids[b] == qv[b].id);
            }
            assert forall|a: int, b: int| 0 <= a < b < aids.len() implies text_lt(
                AnswerCachePackageId::key_of(#[trigger] aids[a]),
                AnswerCachePackageId::key_of(#[trigger] aids[b]),
            ) by {
                assert(aids[a] == av[a].id && aids[b] == av[b].id);
            }
            assert forall|t: Seq<char>| #[trigger] qids.contains(t) <==> is_question_on(ledger, w, t) by {
                if qids.contains(t) {
                    let j = choose|j: int| 0 <= j < qids.len() && qids[j] == t;
                    assert(qv.contains(qv[j]));
                    let m = choose|m: int| 0 <= m < ledger.len() && ledger[m] == qv[j];
                    assert(question_on(w)(ledger[m]) && ledger[m].id == t);
                }
                if is_question_on(ledger, w, t) {
                    let m = choose|m: int| 0 <= m < ledger.len() && question_on(w)(#[trigger] ledger[m]) && ledger[m].id == t;
                    assert(ledger.contains(ledger[m]));
                    assert(qv.contains(ledger[m]));
                    let j = choose|j: int| 0 <= j < qv.len() && qv[j] == ledger[m];
                    assert(qids[j] == t);
                }
            }
            assert forall|t: Seq<char>| #[trigger] aids.contains(t) <==> is_package_on(cache, w, t) by {
                if aids.contains(t) {
                    let j = choose|j: int| 0 <= j < aids.len() && aids[j] == t;
                    assert(av.contains(av[j]));
                    let m = choose|m: int| 0 <= m < cache.len() && cache[m] == av[j];
                    assert(package_on(w)(cache[m]) && cache[m].id == t);
                }
                if is_package_on(cache, w, t) {
                    let m = choose|m: int| 0 <= m < cache.len() && package_on(w)(#[trigger] cache[m]) && cache[m].id == t;
                    assert(cache.contains(cache[m]));
                    assert(av.contains(cache[m]));
                    let j = choose|j: int| 0 <= j < av.len() && av[j] == cache[m];
                    assert(aids[j] == t);
                }
            }
            assert forall|t: Seq<char>| #[trigger] views(knowledge_entry_ids@).contains(t) <==> is_related_on(ledger, cache, w, t) by {
                if exists|j: int| 0 <= j < qv.len() && has_entry_id((#[trigger] qv[j]).related_knowledge_entry_ids, t) {
                    let j = choose|j: int| 0 <= j < qv.len() && has_entry_id((#[trigger] qv[j]).related_knowledge_entry_ids, t);
                    assert(qv.contains(qv[j]));
                    let m = choose|m: int| 0 <= m < ledger.len() && ledger[m] == qv[j];
                    assert(question_on(w)(ledger[m]));
                }
                if exists|j: int| 0 <= j < av.len() && has_entry_id((#[trigger] av[j]).related_knowledge_entry_ids, t) {
                    let j = choose|j: int| 0 <= j < av.len() && has_entry_id((#[trigger] av[j]).related_knowledge_entry_ids, t);
                    assert(av.contains(av[j]));
                    let m = choose|m: int| 0 <= m < cache.len() && cache[m] == av[j];
                    assert(package_on(w)(cache[m]));
                }
                if exists|m: int| 0 <= m < ledger.len() && question_on(w)(#[trigger] ledger[m]) && has_entry_id(ledger[m].related_knowledge_entry_ids, t) {
                    let m = choose|m: int| 0 <= m < ledger.len() && question_on(w)(#[trigger] ledger[m]) && has_entry_id(ledger[m].related_knowledge_entry_ids, t);
                    assert(ledger.contains(ledger[m]));
                    assert(qv.contains(ledger[m]));
                    let j = choose|j: int| 0 <= j < qv.len() && qv[j] == ledger[m];
                    assert(has_entry_id(qv[j].related_knowledge_entry_ids, t));
                }
                if exists|m: int| 0 <= m < cache.len() && package_on(w)(#[trigger] cache[m]) && has_entry_id(cache[m].related_knowledge_entry_ids, t) {
                    let m = choose|m: int| 0 <= m < cache.len() && package_on(w)(#[trigger] cache[m]) && has_entry_id(cache[m].related_knowledge_entry_ids, t);
                    assert(cache.contains(cache[m]));
                    assert(av.contains(cache[m]));
                    let j = choose|j: int| 0 <= j < av.len() && av[j] == cache[m];
                    assert(has_entry_id(av[j].related_knowledge_entry_ids, t));
                }
            }
        }
        Ok(WorkObjectCrossEntityResult {
            work_object_id: query.work_object_id.duplicate(),
            question_ids,
            answer_ids,
            knowledge_entry_ids,
        })
    }
}

/// Whether `user` may see evidence `e` at time `now` under the grants and
/// lifecycles of `perms`: evidence in an artifact needs read permission on
/// the artifact as a knowledge-base resource; other evidence is visible.
pub open spec fn evidence_visible(perms: PermissionStoreView, user: Seq<char>, now: i64) -> spec_fn(CitationEvidenceRecord) -> bool {
    |e: CitationEvidenceRecord|
        match e.source_ref {
            CitationEvidenceRef::Artifact { artifact_id } => check_decision(
                perms.grants,
                perms.statuses,
                user,
                ResourceType::KnowledgeBase,
                artifact_id@,
                PermissionAction::Read,
                now,
            ) == PermissionDecision::Allow,
            _ => true,
        }
}

/// Citation evidence traced with the permissions of the asking user.
#[derive(Debug, Clone)]
pub struct PermissionAwareCitationEvidenceStore {
    pub inner: MemoryCitationEvidenceStore,
    pub permission_store: PermissionStore,
}

impl PermissionAwareCitationEvidenceStore {
    /// Whether both stores keep their invariants.
    pub open spec fn wf(&self) -> bool {
        self.inner.wf() && self.permission_store.wf()
    }

    /// Wraps an evidence store with a permission store.
    pub fn new(inner: MemoryCitationEvidenceStore, permission_store: PermissionStore) -> (r: Self)
        ensures
            r.inner == inner,
            r.permission_store == permission_store,
    {
        PermissionAwareCitationEvidenceStore { inner, permission_store }
    }

    /// The evidence cited by `answer_id` that `user_id` may see at time
    /// `now`, by id.
    pub fn trace_answer_at(&self, answer_id: &str, user_id: &EnterpriseUserId, now: i64) -> (r: Result<
        AnswerCitationTrace,
        CitationEvidenceError,
    >)
        requires
            self.wf(),
        ensures
            r matches Ok(t) && t.answer_id@ == answer_id@ && lists_matching::<CitationEvidenceRecord>(
                self.inner.evidence_view(),
                traced_for(self.inner, self.permission_store@, answer_id@, user_id@, now),
                views(t.evidence@),
            ),
    {
        let trace = match self.inner.trace_answer(answer_id) {
            Ok(t) => t,
            Err(e) => {
                return Err(e);
            },
        };
        let ghost visible = evidence_visible(self.permission_store@, user_id@, now);
        let mut wanted: Vec<bool> = Vec::new();
        let mut i: usize = 0;
        while i < trace.evidence.len()
            invariant
                i <= trace.evidence@.len(),
                wanted@.len() == i,
                self.wf(),
                visible == evidence_visible(self.permission_store@, user_id@, now),
                forall|k: int| 0 <= k < i ==> wanted@[k] == visible(#[trigger] trace.evidence@[k]@),
            decreases trace.evidence@.len() - i,
        {
            let allowed = match &trace.evidence[i].source_ref {
                CitationEvidenceRef::Artifact { artifact_id } => {
                    let resource_id = ResourceId::from(artifact_id.0.clone());
                    self.permission_store.check(
                        user_id,
                        &ResourceType::KnowledgeBase,
                        &resource_id,
                        &PermissionAction::Read,
                        now,
                    ).is_allowed()
                },
                _ => true,
            };
            wanted.push(allowed);
            i = i + 1;
        }
        proof {
            lemma_increasing_distinct::<CitationEvidenceRecord>(views(trace.evidence@));
        }
        let evidence = select_sorted(&trace.evidence, &wanted, Ghost(visible));
        proof {
            let all = self.inner.evidence_view();
            let pred = cited_by(self.inner.cited(answer_id@));
            let want = traced_for(self.inner, self.permission_store@, answer_id@, user_id@, now);
            assert forall|x: CitationEvidenceRecord| #[trigger] views(evidence@).contains(x) <==> (all.contains(x) && want(x)) by {
                assert(views(trace.evidence@).contains(x) <==> (all.contains(x) && pred(x)));
            }
        }
        Ok(AnswerCitationTrace { answer_id: trace.answer_id, evidence })
    }

    /// The evidence cited by `answer_id` that `user_id` may see now, by id.
    pub fn trace_answer_with_permissions(&self, answer_id: &str, user_id: &EnterpriseUserId) -> (r: Result<
        AnswerCitationTrace,
        CitationEvidenceError,
    >)
        requires
            self.wf(),
        ensures
            r matches Ok(t) && t.answer_id@ == answer_id@ && exists|now: i64|
                lists_matching::<CitationEvidenceRecord>(
                    self.inner.evidence_view(),
                    #[trigger] traced_for(self.inner, self.permission_store@, answer_id@, user_id@, now),
                    views(t.evidence@),
                ),
    {
        let now = now_unix_seconds();
        let r = self.trace_answer_at(answer_id, user_id, now);
        r
    }
}

/// Evidence cited by `answer` in `store` and visible to `user` at `now`.
pub open spec fn traced_for(
    store: MemoryCitationEvidenceStore,
    perms: PermissionStoreView,
    answer: Seq<char>,
    user: Seq<char>,
    now: i64,
) -> spec_fn(CitationEvidenceRecord) -> bool {
    |e: CitationEvidenceRecord| cited_by(store.cited(answer))(e) && evidence_visible(perms, user, now)(e)
}

/// A new version of an answer is above every version stored for it.
pub proof fn law_new_version_exceeds_stored(s: Seq<PackageView>, a: Seq<char>, i: int)
    requires
        0 <= i < s.len(),
        s[i].answer_id == a,
    ensures
        s[i].version <= max_version(s, a),
        s[i].version < max_version(s, a) + 1,
    decreases s.len(),
{
    if i < s.len() - 1 {
        assert(s.drop_last()[i] == s[i]);
        law_new_version_exceeds_stored(s.drop_last(), a, i);
    }
}

/// Linking the same answer again leaves the related knowledge entries as
/// the first link left them.
pub proof fn law_relinking_keeps_related(e: QuestionView, answer: QuestionAnswerRef, t1: i64, t2: i64)
    ensures
        linked_question(linked_question(e, answer, t1), answer, t2).related_knowledge_entry_ids
            == linked_question(e, answer, t1).related_knowledge_entry_ids,
        linked_question(linked_question(e, answer, t1), answer, t2).answer_ref == Some(answer),
{
    match answer.knowledge_entry_id {
        Some(k) => {
            let once = linked_question(e, answer, t1).related_knowledge_entry_ids;
            if !has_entry_id(e.related_knowledge_entry_ids, k@) {
                assert(once[once.len() - 1] == k);
            }
            assert(has_entry_id(once, k@));
        },
        None => {},
    }
}

/// The related knowledge entries of an answer's evidence hold each id once.
pub proof fn law_related_ids_distinct(refs: Seq<AnswerEvidenceRef>)
    ensures
        forall|i: int, j: int|
            0 <= i < j < related_ids(refs).len() ==> (#[trigger] related_ids(refs)[i])@ != (
            #[trigger] related_ids(refs)[j])@,
    decreases refs.len(),
{
    if refs.len() > 0 {
        law_related_ids_distinct(refs.drop_last());
        let acc = related_ids(refs.drop_last());
        let r = related_ids(refs);
        assert forall|i: int, j: int| 0 <= i < j < r.len() implies (#[trigger] r[i])@ != (#[trigger] r[j])@ by {
            if j < acc.len() {
                assert(r[i] == acc[i] && r[j] == acc[j]);
            } else {
                assert(r[i] == acc[i]);
                if r[i]@ == r[j]@ {
                    assert(has_entry_id(acc, r[j]@));
                }
            }
        }
    }
}

/// Two sequences ordered by strictly increasing key that hold the same
/// records are the same sequence.
pub proof fn law_increasing_listing_unique<T: Keyed>(a: Seq<T::V>, b: Seq<T::V>)
    requires
        keys_increasing::<T>(a),
        keys_increasing::<T>(b),
        forall|x: T::V| a.contains(x) <==> b.contains(x),
    ensures
        a == b,
    decreases a.len(),
{
    if a.len() == 0 {
        if b.len() > 0 {
            assert(b.contains(b[0]));
        }
        assert(a =~= b);
    } else {
        assert(a.contains(a[0]));
        assert(b.len() > 0);
        assert(b.contains(b[0]));
        let j = choose|j: int| 0 <= j < b.len() && b[j] == a[0];
        let i = choose|i: int| 0 <= i < a.len() && a[i] == b[0];
        if j > 0 {
            assert(text_lt(T::key_of(b[0]), T::key_of(b[j])));
            if i > 0 {
                assert(text_lt(T::key_of(a[0]), T::key_of(a[i])));
                lemma_text_lt_transitive(T::key_of(a[0]), T::key_of(b[0]), T::key_of(a[0]));
                lemma_text_lt_irreflexive(T::key_of(a[0]));
            } else {
                lemma_text_lt_irreflexive(T::key_of(a[0]));
            }
        }
        assert(a[0] == b[0]);
        let ra = a.drop_first();
        let rb = b.drop_first();
        assert forall|x: T::V| ra.contains(x) <==> rb.contains(x) by {
            if ra.contains(x) {
                let k = choose|k: int| 0 <= k < ra.len() && ra[k] == x;
                assert(a[k + 1] == x);
                assert(a.contains(x));
                assert(text_lt(T::key_of(a[0]), T::key_of(a[k + 1])));
                lemma_text_lt_irreflexive(T::key_of(x));
                let m = choose|m: int| 0 <= m < b.len() && b[m] == x;
                assert(m != 0);
                assert(rb[m - 1] == x);
            }
            if rb.contains(x) {
                let k = choose|k: int| 0 <= k < rb.len() && rb[k] == x;
                assert(b[k + 1] == x);
                assert(b.contains(x));
                assert(text_lt(T::key_of(b[0]), T::key_of(b[k + 1])));
                lemma_text_lt_irreflexive(T::key_of(x));
                let m = choose|m: int| 0 <= m < a.len() && a[m] == x;
                assert(m != 0);
                assert(ra[m - 1] == x);
            }
        }
        assert forall|p: int, q: int| 0 <= p < q < ra.len() implies text_lt(T::key_of(#[trigger] ra[p]), T::key_of(#[trigger] ra[q])) by {
            assert(ra[p] == a[p + 1] && ra[q] == a[q + 1]);
        }
        assert forall|p: int, q: int| 0 <= p < q < rb.len() implies text_lt(T::key_of(#[trigger] rb[p]), T::key_of(#[trigger] rb[q])) by {
            assert(rb[p] == b[p + 1] && rb[q] == b[q + 1]);
        }
        law_increasing_listing_unique::<T>(ra, rb);
        assert(a =~= seq![a[0]] + ra);
        assert(b =~= seq![b[0]] + rb);
    }
}

/// A listing of the records that satisfy a predicate, by increasing key,
/// is unique.
pub proof fn law_listing_is_unique<T: Keyed>(s: Seq<T::V>, pred: spec_fn(T::V) -> bool, a: Seq<T::V>, b: Seq<T::V>)
    requires
        lists_matching::<T>(s, pred, a),
        lists_matching::<T>(s, pred, b),
    ensures
        a == b,
{
    assert forall|x: T::V| a.contains(x) <==> b.contains(x) by {
        assert(a.contains(x) <==> (s.contains(x) && pred(x)));
        assert(b.contains(x) <==> (s.contains(x) && pred(x)));
    }
    law_increasing_listing_unique::<T>(a, b);
}

/// Stores `x` among records sorted by key, in place of the record with the
/// same key if there is one.
pub(crate) fn put_sorted<T: Keyed>(v: &mut Vec<T>, x: T)
    requires
        keys_increasing::<T>(views(old(v)@)),
    ensures
        keys_increasing::<T>(views(final(v)@)),
        forall|k: Seq<char>|
            #[trigger] keyed::<T>(views(final(v)@), k) == if k == T::key_of(x@) {
                Some(x@)
            } else {
                keyed::<T>(views(old(v)@), k)
            },
{
    let ghost before = views(v@);
    let ghost xv = x@;
    let ghost xk = T::key_of(x@);
    let k = chars_of(x.key_str());
    let p = sorted_position(v, k.as_slice());
    let replace = p < v.len() && str_eq(v[p].key_str(), x.key_str());
    if replace {
        v.set(p, x);
    } else {
        v.insert(p, x);
    }
    proof {
        let after = views(v@);
        lemma_increasing_distinct::<T>(before);
        assert forall|i: int| 0 <= i < p implies text_lt(T::key_of(#[trigger] before[i]), xk) by {
            assert(before[i] == old(v)@[i]@);
        }
        if replace {
            assert(after =~= before.update(p as int, xv));
            assert(T::key_of(before[p as int]) == xk) by {
                assert(before[p as int] == old(v)@[p as int]@);
            }
        } else {
            assert(after =~= before.insert(p as int, xv));
            if p < before.len() {
                assert(before[p as int] == old(v)@[p as int]@);
                lemma_text_lt_total(T::key_of(before[p as int]), xk);
            }
        }
        assert forall|m: int| p < m < before.len() implies text_lt(xk, T::key_of(#[trigger] before[m])) by {
            assert(before[m] == old(v)@[m]@);
            assert(before[p as int] == old(v)@[p as int]@);
            if replace {
                assert(text_lt(T::key_of(before[p as int]), T::key_of(before[m])));
            } else {
                lemma_text_lt_transitive(xk, T::key_of(before[p as int]), T::key_of(before[m]));
            }
        }
        if !replace && p < before.len() {
            assert(text_lt(xk, T::key_of(before[p as int])));
        }
        assert forall|i: int, j: int| 0 <= i < j < after.len() implies text_lt(
            T::key_of(#[trigger] after[i]),
            T::key_of(#[trigger] after[j]),
        ) by {
            if replace {
                if j == p {
                    assert(after[i] == before[i]);
                } else if i == p {
                    assert(after[j] == before[j]);
                } else {
                    assert(after[i] == before[i] && after[j] == before[j]);
                }
            } else {
                if j < p {
                    assert(after[i] == before[i] && after[j] == before[j]);
                } else if j == p {
                    assert(after[i] == before[i]);
                } else if i == p {
                    assert(after[j] == before[j - 1]);
                } else if i < p {
                    assert(after[i] == before[i] && after[j] == before[j - 1]);
                    if j - 1 == p {
                        lemma_text_lt_transitive(T::key_of(before[i]), xk, T::key_of(before[j - 1]));
                    } else {
                        lemma_text_lt_transitive(T::key_of(before[i]), xk, T::key_of(before[j - 1]));
                    }
                } else {
                    assert(after[i] == before[i - 1] && after[j] == before[j - 1]);
                }
            }
        }
        lemma_increasing_distinct::<T>(after);
        assert forall|key: Seq<char>|
            #[trigger] keyed::<T>(after, key) == if key == xk {
                Some(xv)
            } else {
                keyed::<T>(before, key)
            } by {
            if key == xk {
                lemma_keyed_at::<T>(after, p as int);
            } else if has_key::<T>(before, key) {
                let q = key_index::<T>(before, key);
                lemma_keyed_at::<T>(before, q);
                if replace || q < p {
                    assert(after[q] == before[q]);
                    lemma_keyed_at::<T>(after, q);
                } else {
                    assert(after[q + 1] == before[q]);
                    lemma_keyed_at::<T>(after, q + 1);
                }
            } else {
                assert forall|q: int| 0 <= q < after.len() implies T::key_of(#[trigger] after[q]) != key by {
                    if q != p {
                        if replace || q < p {
                            assert(after[q] == before[q]);
                        } else {
                            assert(after[q] == before[q - 1]);
                        }
                    }
                }
            }
        }
    }
}

/// Removes the record with key `key` from records sorted by key, if there
/// is one.
pub(crate) fn remove_sorted<T: Keyed>(v: &mut Vec<T>, key: &str)
    requires
        keys_increasing::<T>(views(old(v)@)),
    ensures
        keys_increasing::<T>(views(final(v)@)),
        forall|k: Seq<char>|
            #[trigger] keyed::<T>(views(final(v)@), k) == if k == key@ {
                None
            } else {
                keyed::<T>(views(old(v)@), k)
            },
{
    let ghost before = views(v@);
    proof {
        lemma_increasing_distinct::<T>(before);
    }
    match position_of(v, key) {
        None => {
            proof {
                assert forall|k: Seq<char>|
                    #[trigger] keyed::<T>(views(v@), k) == if k == key@ {
                        None
                    } else {
                        keyed::<T>(before, k)
                    } by {}
            }
        },
        Some(p) => {
            v.remove(p);
            proof {
                let after = views(v@);
                assert(after =~= before.remove(p as int));
                assert(T::key_of(before[p as int]) == key@) by {
                    assert(before[p as int] == old(v)@[p as int]@);
                }
                assert forall|i: int, j: int| 0 <= i < j < after.len() implies text_lt(
                    T::key_of(#[trigger] after[i]),
                    T::key_of(#[trigger] after[j]),
                ) by {
                    if j < p {
                        assert(after[i] == before[i] && after[j] == before[j]);
                    } else if i < p {
                        assert(after[i] == before[i] && after[j] == before[j + 1]);
                    } else {
                        assert(after[i] == before[i + 1] && after[j] == before[j + 1]);
                    }
                }
                lemma_increasing_distinct::<T>(after);
                assert forall|k: Seq<char>|
                    #[trigger] keyed::<T>(after, k) == if k == key@ {
                        None
                    } else {
                        keyed::<T>(before, k)
                    } by {
                    if k == key@ {
                        assert forall|q: int| 0 <= q < after.len() implies T::key_of(#[trigger] after[q]) != k by {
                            if q < p {
                                assert(after[q] == before[q]);
                            } else {
                                assert(after[q] == before[q + 1]);
                            }
                        }
                    } else if has_key::<T>(before, k) {
                        let q = key_index::<T>(before, k);
                        lemma_keyed_at::<T>(before, q);
                        if q < p {
                            assert(after[q] == before[q]);
                            lemma_keyed_at::<T>(after, q);
                        } else {
                            assert(q != p);
                            assert(after[q - 1] == before[q]);
                            lemma_keyed_at::<T>(after, q - 1);
                        }
                    } else {
                        assert forall|q: int| 0 <= q < after.len() implies T::key_of(#[trigger] after[q]) != k by {
                            if q < p {
                                assert(after[q] == before[q]);
                            } else {
                                assert(after[q] == before[q + 1]);
                            }
                        }
                    }
                }
            }
        },
    }
}

} // verus!
