//! Knowledge governance: the frontmatter an entry needs before it becomes
//! active, the lifecycle transitions that enforce it, and the review queue
//! and active index derived from the records. Times are Unix seconds.
use crate::knowledge::{
    blank, is_blank, KnowledgeEntryId, KnowledgeGovernanceError, KnowledgeGovernanceStatus,
    KnowledgeGovernanceValidationError,
};
use crate::json::{json_array_field_len, json_field_array_len, json_field_str, json_str_field};
use crate::text::{
    chars_of, lemma_text_lt_irreflexive, lemma_text_lt_total, lemma_text_lt_transitive, str_eq,
    text_less, text_lt,
};
use vstd::prelude::*;

verus! {

/// Governance metadata for a knowledge entry.
#[derive(Debug, Clone, PartialEq)]
pub struct KnowledgeGovernanceRecord {
    pub knowledge_entry_id: KnowledgeEntryId,
    pub status: KnowledgeGovernanceStatus,
    pub frontmatter: serde_json::Value,
    pub created_at: i64,
    pub updated_at: i64,
}

/// A record waiting for review, with what its frontmatter lacks.
#[derive(Debug, Clone, PartialEq, Eq)]
pub struct KnowledgeReviewQueueItem {
    pub knowledge_entry_id: KnowledgeEntryId,
    pub status: KnowledgeGovernanceStatus,
    pub validation_errors: Vec<KnowledgeGovernanceValidationError>,
    pub updated_at: i64,
}

/// Whether the frontmatter holds a string under `key` that is not blank.
pub open spec fn has_text(fm: serde_json::Value, key: Seq<char>) -> bool {
    json_field_str(fm, key) matches Some(t) && !blank(t)
}

/// Whether the frontmatter holds a non-empty array under `key`.
pub open spec fn has_items(fm: serde_json::Value, key: Seq<char>) -> bool {
    json_field_array_len(fm, key) matches Some(n) && n > 0
}

/// What a frontmatter lacks, in order: a title, a summary, tags.
pub open spec fn governance_errors(fm: serde_json::Value) -> Seq<KnowledgeGovernanceValidationError> {
    (if has_text(fm, "title"@) {
        Seq::empty()
    } else {
        seq![KnowledgeGovernanceValidationError::MissingTitle]
    }) + (if has_text(fm, "summary"@) {
        Seq::empty()
    } else {
        seq![KnowledgeGovernanceValidationError::MissingSummary]
    }) + (if has_items(fm, "tags"@) {
        Seq::empty()
    } else {
        seq![KnowledgeGovernanceValidationError::MissingTags]
    })
}

fn text_field_present(fm: &serde_json::Value, key: &str) -> (r: bool)
    ensures
        r == has_text(*fm, key@),
{
    match json_str_field(fm, key) {
        Some(t) => !is_blank(t.as_str()),
        None => false,
    }
}

impl KnowledgeGovernanceRecord {
    /// A record created at `created_at` and not updated since.
    pub fn new(
        knowledge_entry_id: KnowledgeEntryId,
        status: KnowledgeGovernanceStatus,
        frontmatter: serde_json::Value,
        created_at: i64,
    ) -> (r: Self)
        ensures
            r.knowledge_entry_id == knowledge_entry_id,
            r.status == status,
            r.frontmatter == frontmatter,
            r.created_at == created_at,
            r.updated_at == created_at,
    {
        KnowledgeGovernanceRecord { knowledge_entry_id, status, frontmatter, created_at, updated_at: created_at }
    }

    /// An equal copy of the record.
    pub fn duplicate(&self) -> (r: Self)
        ensures
            r == *self,
    {
        KnowledgeGovernanceRecord {
            knowledge_entry_id: self.knowledge_entry_id.duplicate(),
            status: self.status,
            frontmatter: self.frontmatter.clone(),
            created_at: self.created_at,
            updated_at: self.updated_at,
        }
    }

    /// What the frontmatter lacks: a non-blank string title, a non-blank
    /// string summary, a non-empty array of tags.
    pub fn validation_errors(&self) -> (r: Vec<KnowledgeGovernanceValidationError>)
        ensures
            r@ == governance_errors(self.frontmatter),
    {
        let mut errors: Vec<KnowledgeGovernanceValidationError> = Vec::new();
        if !text_field_present(&self.frontmatter, "title") {
            errors.push(KnowledgeGovernanceValidationError::MissingTitle);
        }
        if !text_field_present(&self.frontmatter, "summary") {
            errors.push(KnowledgeGovernanceValidationError::MissingSummary);
        }
        let tags = match json_array_field_len(&self.frontmatter, "tags") {
            Some(n) => n > 0,
            None => false,
        };
        if !tags {
            errors.push(KnowledgeGovernanceValidationError::MissingTags);
        }
        proof {
            reveal_strlit("title");
            reveal_strlit("summary");
            reveal_strlit("tags");
            assert(errors@ =~= governance_errors(self.frontmatter));
        }
        errors
    }

    /// Makes the record active at `updated_at`; a record whose frontmatter
    /// lacks anything is refused with what it lacks.
    pub fn activate(self, updated_at: i64) -> (r: Result<Self, KnowledgeGovernanceError>)
        ensures
            governance_errors(self.frontmatter).len() == 0 ==> r == Ok::<Self, KnowledgeGovernanceError>(
                KnowledgeGovernanceRecord { status: KnowledgeGovernanceStatus::Active, updated_at, ..self },
            ),
            governance_errors(self.frontmatter).len() > 0 ==> (r matches Err(
                KnowledgeGovernanceError::ValidationFailed(v),
            ) && v@ == governance_errors(self.frontmatter)),
    {
        let errors = self.validation_errors();
        if errors.len() > 0 {
            return Err(KnowledgeGovernanceError::ValidationFailed(errors));
        }
        Ok(KnowledgeGovernanceRecord { status: KnowledgeGovernanceStatus::Active, updated_at, ..self })
    }
}

impl KnowledgeReviewQueueItem {
    /// The review item for a record.
    pub fn from_record(record: &KnowledgeGovernanceRecord) -> (r: Self)
        ensures
            r.knowledge_entry_id == record.knowledge_entry_id,
            r.status == record.status,
            r.validation_errors@ == governance_errors(record.frontmatter),
            r.updated_at == record.updated_at,
    {
        KnowledgeReviewQueueItem {
            knowledge_entry_id: record.knowledge_entry_id.duplicate(),
            status: record.status,
            validation_errors: record.validation_errors(),
            updated_at: record.updated_at,
        }
    }
}

/// Whether the records of `s` are ordered by strictly increasing entry id.
pub open spec fn entry_ids_increasing(s: Seq<KnowledgeGovernanceRecord>) -> bool {
    forall|i: int, j: int|
        0 <= i < j < s.len() ==> text_lt(
            (#[trigger] s[i]).knowledge_entry_id@,
            (#[trigger] s[j]).knowledge_entry_id@,
        )
}

/// Whether some record of `s` is for entry `id`.
pub open spec fn has_record(s: Seq<KnowledgeGovernanceRecord>, id: Seq<char>) -> bool {
    exists|i: int| 0 <= i < s.len() && (#[trigger] s[i]).knowledge_entry_id@ == id
}

/// A position of `s` holding the record for `id`, when there is one.
pub open spec fn record_index(s: Seq<KnowledgeGovernanceRecord>, id: Seq<char>) -> int {
    choose|i: int| 0 <= i < s.len() && (#[trigger] s[i]).knowledge_entry_id@ == id
}

/// The record of `s` for entry `id`, if any.
pub open spec fn record_of(s: Seq<KnowledgeGovernanceRecord>, id: Seq<char>) -> Option<KnowledgeGovernanceRecord> {
    if has_record(s, id) {
        Some(s[record_index(s, id)])
    } else {
        None
    }
}

proof fn lemma_record_at(s: Seq<KnowledgeGovernanceRecord>, i: int)
    requires
        entry_ids_increasing(s),
        0 <= i < s.len(),
    ensures
        record_of(s, s[i].knowledge_entry_id@) == Some(s[i]),
{
    let id = s[i].knowledge_entry_id@;
    assert(has_record(s, id));
    let k = record_index(s, id);
    if k < i {
        assert(text_lt(s[k].knowledge_entry_id@, s[i].knowledge_entry_id@));
        lemma_text_lt_irreflexive(id);
    } else if k > i {
        assert(text_lt(s[i].knowledge_entry_id@, s[k].knowledge_entry_id@));
        lemma_text_lt_irreflexive(id);
    }
}

/// Whether a record belongs in the active index: it is active and its
/// frontmatter lacks nothing.
pub open spec fn is_indexed(r: KnowledgeGovernanceRecord) -> bool {
    r.status == KnowledgeGovernanceStatus::Active && governance_errors(r.frontmatter).len() == 0
}

/// Whether a record belongs in the review queue: it is not active and its
/// frontmatter lacks something.
pub open spec fn needs_review(r: KnowledgeGovernanceRecord) -> bool {
    r.status != KnowledgeGovernanceStatus::Active && governance_errors(r.frontmatter).len() > 0
}

/// In-memory governance store keyed by entry id.
#[derive(Debug, Clone)]
pub struct MemoryKnowledgeGovernanceStore {
    records: Vec<KnowledgeGovernanceRecord>,
}

impl View for MemoryKnowledgeGovernanceStore {
    type V = Seq<KnowledgeGovernanceRecord>;

    closed spec fn view(&self) -> Seq<KnowledgeGovernanceRecord> {
        self.records@
    }
}

impl Default for MemoryKnowledgeGovernanceStore {
    fn default() -> (r: Self)
        ensures
            r@.len() == 0,
            r.wf(),
    {
        Self::new()
    }
}

impl MemoryKnowledgeGovernanceStore {
    /// The store's invariant: records are ordered by strictly increasing id.
    pub open spec fn wf(&self) -> bool {
        entry_ids_increasing(self@)
    }

    /// An empty store.
    pub fn new() -> (r: Self)
        ensures
            r@.len() == 0,
            r.wf(),
    {
        MemoryKnowledgeGovernanceStore { records: Vec::new() }
    }

    /// The first position whose id does not come before `id`.
    fn position(&self, id: &[char]) -> (r: usize)
        requires
            self.wf(),
        ensures
            r <= self@.len(),
            forall|k: int| 0 <= k < r ==> text_lt((#[trigger] self@[k]).knowledge_entry_id@, id@),
            r < self@.len() ==> !text_lt(self@[r as int].knowledge_entry_id@, id@),
    {
        let mut i: usize = 0;
        while i < self.records.len()
            invariant
                i <= self.records@.len(),
                forall|k: int| 0 <= k < i ==> text_lt((#[trigger] self.records@[k]).knowledge_entry_id@, id@),
            decreases self.records@.len() - i,
        {
            let cs = chars_of(self.records[i].knowledge_entry_id.as_str());
            if !text_less(cs.as_slice(), id) {
                return i;
            }
            i = i + 1;
        }
        i
    }

    /// The position of the record for `id`, if any.
    fn find(&self, id: &KnowledgeEntryId) -> (r: Option<usize>)
        requires
            self.wf(),
        ensures
            match r {
                Some(p) => p < self@.len() && self@[p as int].knowledge_entry_id@ == id@,
                None => !has_record(self@, id@),
            },
    {
        let cs = chars_of(id.as_str());
        let p = self.position(cs.as_slice());
        if p < self.records.len() && str_eq(self.records[p].knowledge_entry_id.as_str(), id.as_str()) {
            Some(p)
        } else {
            proof {
                assert forall|k: int| 0 <= k < self@.len() implies (#[trigger] self@[k]).knowledge_entry_id@ != id@ by {
                    if k < p {
                        lemma_text_lt_irreflexive(id@);
                    } else if k > p && self@[k].knowledge_entry_id@ == id@ {
                        assert(text_lt(self@[p as int].knowledge_entry_id@, self@[k].knowledge_entry_id@));
                        lemma_text_lt_total(self@[p as int].knowledge_entry_id@, id@);
                    }
                }
            }
            None
        }
    }

    /// Stores `record` in place of the one for the same entry.
    fn put(&mut self, record: KnowledgeGovernanceRecord)
        requires
            old(self).wf(),
        ensures
            final(self).wf(),
            forall|id: Seq<char>|
                #[trigger] record_of(final(self)@, id) == if id == record.knowledge_entry_id@ {
                    Some(record)
                } else {
                    record_of(old(self)@, id)
                },
    {
        let ghost before = self.records@;
        let ghost rid = record.knowledge_entry_id@;
        let id = chars_of(record.knowledge_entry_id.as_str());
        let p = self.position(id.as_slice());
        let replace = p < self.records.len() && str_eq(
            self.records[p].knowledge_entry_id.as_str(),
            record.knowledge_entry_id.as_str(),
        );
        if replace {
            self.records.set(p, record);
        } else {
            self.records.insert(p, record);
        }
        proof {
            let after = self.records@;
            if !replace && p < before.len() {
                lemma_text_lt_total(before[p as int].knowledge_entry_id@, rid);
            }
            assert forall|i: int, j: int| 0 <= i < j < after.len() implies text_lt(
                (#[trigger] after[i]).knowledge_entry_id@,
                (#[trigger] after[j]).knowledge_entry_id@,
            ) by {
                if replace {
                    if j == p {
                        assert(text_lt(before[i].knowledge_entry_id@, rid));
                    } else if i == p {
                        assert(text_lt(before[p as int].knowledge_entry_id@, before[j].knowledge_entry_id@));
                    }
                } else {
                    if j < p {
                        assert(after[i] == before[i] && after[j] == before[j]);
                    } else if j == p {
                        assert(after[i] == before[i]);
                    } else if i == p {
                        assert(after[j] == before[j - 1]);
                        if j - 1 > p {
                            lemma_text_lt_transitive(
                                rid,
                                before[p as int].knowledge_entry_id@,
                                before[j - 1].knowledge_entry_id@,
                            );
                        }
                    } else if i < p {
                        assert(after[i] == before[i] && after[j] == before[j - 1]);
                    } else {
                        assert(after[i] == before[i - 1] && after[j] == before[j - 1]);
                    }
                }
            }
            assert forall|id: Seq<char>|
                #[trigger] record_of(after, id) == if id == rid {
                    Some(record)
                } else {
                    record_of(before, id)
                } by {
                if id == rid {
                    lemma_record_at(after, p as int);
                } else if has_record(before, id) {
                    let k = record_index(before, id);
                    lemma_record_at(before, k);
                    if replace || k < p {
                        assert(after[k] == before[k]);
                        lemma_record_at(after, k);
                    } else {
                        assert(after[k + 1] == before[k]);
                        lemma_record_at(after, k + 1);
                    }
                } else {
                    assert forall|k: int| 0 <= k < after.len() implies (#[trigger] after[k]).knowledge_entry_id@ != id by {
                        if k != p {
                            if replace || k < p {
                                assert(after[k] == before[k]);
                            } else {
                                assert(after[k] == before[k - 1]);
                            }
                        }
                    }
                }
            }
        }
    }

    /// Stores a record, replacing the one for the same entry, and returns it.
    pub fn upsert_record(&mut self, record: KnowledgeGovernanceRecord) -> (r: Result<
        KnowledgeGovernanceRecord,
        KnowledgeGovernanceError,
    >)
        requires
            old(self).wf(),
        ensures
            r == Ok::<KnowledgeGovernanceRecord, KnowledgeGovernanceError>(record),
            final(self).wf(),
            forall|id: Seq<char>|
                #[trigger] record_of(final(self)@, id) == if id == record.knowledge_entry_id@ {
                    Some(record)
                } else {
                    record_of(old(self)@, id)
                },
    {
        let copy = record.duplicate();
        self.put(record);
        Ok(copy)
    }

    /// Moves an entry to `status` at `updated_at`. Becoming active goes
    /// through `activate`, so a record whose frontmatter lacks anything is
    /// refused and left as it was; an unknown entry is an error.
    pub fn transition_status(
        &mut self,
        knowledge_entry_id: &KnowledgeEntryId,
        status: KnowledgeGovernanceStatus,
        updated_at: i64,
    ) -> (r: Result<KnowledgeGovernanceRecord, KnowledgeGovernanceError>)
        requires
            old(self).wf(),
        ensures
            final(self).wf(),
            match record_of(old(self)@, knowledge_entry_id@) {
                None => (r matches Err(KnowledgeGovernanceError::NotFound(m)) && m@ == knowledge_entry_id@)
                    && final(self)@ == old(self)@,
                Some(existing) => if status == KnowledgeGovernanceStatus::Active && governance_errors(
                    existing.frontmatter,
                ).len() > 0 {
                    (r matches Err(KnowledgeGovernanceError::ValidationFailed(v)) && v@ == governance_errors(
                        existing.frontmatter,
                    )) && final(self)@ == old(self)@
                } else {
                    let updated = KnowledgeGovernanceRecord { status, updated_at, ..existing };
                    r == Ok::<KnowledgeGovernanceRecord, KnowledgeGovernanceError>(updated) && forall|id: Seq<char>|
                        #[trigger] record_of(final(self)@, id) == if id == knowledge_entry_id@ {
                            Some(updated)
                        } else {
                            record_of(old(self)@, id)
                        }
                },
            },
    {
        let p = match self.find(knowledge_entry_id) {
            Some(p) => p,
            None => return Err(KnowledgeGovernanceError::NotFound(knowledge_entry_id.to_string())),
        };
        proof {
            lemma_record_at(self@, p as int);
        }
        let existing = self.records[p].duplicate();
        let updated = if status == KnowledgeGovernanceStatus::Active {
            match existing.activate(updated_at) {
                Ok(rec) => rec,
                Err(e) => return Err(e),
            }
        } else {
            KnowledgeGovernanceRecord { status, updated_at, ..existing }
        };
        let copy = updated.duplicate();
        self.put(updated);
        Ok(copy)
    }

    /// The records waiting for review: not active and lacking something,
    /// in entry id order.
    pub fn review_queue(&self) -> (r: Result<Vec<KnowledgeReviewQueueItem>, KnowledgeGovernanceError>)
        ensures
            r matches Ok(v) && v@.len() == self@.filter(|x: KnowledgeGovernanceRecord| needs_review(x)).len()
                && forall|k: int|
                0 <= k < v@.len() ==> ({
                    let rec = self@.filter(|x: KnowledgeGovernanceRecord| needs_review(x))[k];
                    &&& (#[trigger] v@[k]).knowledge_entry_id == rec.knowledge_entry_id
                    &&& v@[k].status == rec.status
                    &&& v@[k].validation_errors@ == governance_errors(rec.frontmatter)
                    &&& v@[k].updated_at == rec.updated_at
                }),
    {
        let mut out: Vec<KnowledgeReviewQueueItem> = Vec::new();
        let mut i: usize = 0;
        while i < self.records.len()
            invariant
                i <= self.records@.len(),
                out@.len() == self.records@.take(i as int).filter(|x: KnowledgeGovernanceRecord| needs_review(x)).len(),
                forall|k: int|
                    0 <= k < out@.len() ==> ({
                        let rec = self.records@.take(i as int).filter(|x: KnowledgeGovernanceRecord| needs_review(x))[k];
                        &&& (#[trigger] out@[k]).knowledge_entry_id == rec.knowledge_entry_id
                        &&& out@[k].status == rec.status
                        &&& out@[k].validation_errors@ == governance_errors(rec.frontmatter)
                        &&& out@[k].updated_at == rec.updated_at
                    }),
            decreases self.records@.len() - i,
        {
            proof {
                reveal(Seq::filter);
                assert(self.records@.take(i + 1).drop_last() == self.records@.take(i as int));
            }
            let rec = &self.records[i];
            if rec.status != KnowledgeGovernanceStatus::Active {
                let item = KnowledgeReviewQueueItem::from_record(rec);
                if item.validation_errors.len() > 0 {
                    out.push(item);
                }
            }
            i = i + 1;
        }
        assert(self.records@.take(self.records@.len() as int) == self.records@);
        Ok(out)
    }

    /// The ids of the entries in the active index: active and lacking
    /// nothing, in id order.
    pub fn active_index_entry_ids(&self) -> (r: Result<Vec<KnowledgeEntryId>, KnowledgeGovernanceError>)
        ensures
            r matches Ok(v) && v@.len() == self@.filter(|x: KnowledgeGovernanceRecord| is_indexed(x)).len()
                && forall|k: int|
                0 <= k < v@.len() ==> #[trigger] v@[k] == self@.filter(
                    |x: KnowledgeGovernanceRecord| is_indexed(x),
                )[k].knowledge_entry_id,
    {
        let mut out: Vec<KnowledgeEntryId> = Vec::new();
        let mut i: usize = 0;
        while i < self.records.len()
            invariant
                i <= self.records@.len(),
                out@.len() == self.records@.take(i as int).filter(|x: KnowledgeGovernanceRecord| is_indexed(x)).len(),
                forall|k: int|
                    0 <= k < out@.len() ==> #[trigger] out@[k] == self.records@.take(i as int).filter(
                        |x: KnowledgeGovernanceRecord| is_indexed(x),
                    )[k].knowledge_entry_id,
            decreases self.records@.len() - i,
        {
            proof {
                reveal(Seq::filter);
                assert(self.records@.take(i + 1).drop_last() == self.records@.take(i as int));
            }
            let rec = &self.records[i];
            if rec.status == KnowledgeGovernanceStatus::Active {
                let errors = rec.validation_errors();
                if errors.len() == 0 {
                    out.push(rec.knowledge_entry_id.duplicate());
                }
            }
            i = i + 1;
        }
        assert(self.records@.take(self.records@.len() as int) == self.records@);
        Ok(out)
    }
}

/// An entry whose transition to active succeeded is in the active index:
/// whatever else the store holds, the updated record is active, lacks
/// nothing, and is among the indexed records.
pub proof fn law_activated_entry_is_indexed(
    s: Seq<KnowledgeGovernanceRecord>,
    existing: KnowledgeGovernanceRecord,
    updated_at: i64,
)
    requires
        governance_errors(existing.frontmatter).len() == 0,
        record_of(s, existing.knowledge_entry_id@) == Some(
            KnowledgeGovernanceRecord { status: KnowledgeGovernanceStatus::Active, updated_at, ..existing },
        ),
    ensures
        s.filter(|x: KnowledgeGovernanceRecord| is_indexed(x)).contains(
            KnowledgeGovernanceRecord { status: KnowledgeGovernanceStatus::Active, updated_at, ..existing },
        ),
{
    let updated = KnowledgeGovernanceRecord { status: KnowledgeGovernanceStatus::Active, updated_at, ..existing };
    let k = record_index(s, existing.knowledge_entry_id@);
    assert(s[k] == updated);
    assert(is_indexed(updated));
    s.filter_lemma(|x: KnowledgeGovernanceRecord| is_indexed(x));
}

/// A record whose frontmatter lacks something is never in the active
/// index, whatever its status.
pub proof fn law_invalid_record_never_indexed(s: Seq<KnowledgeGovernanceRecord>, rec: KnowledgeGovernanceRecord)
    requires
        governance_errors(rec.frontmatter).len() > 0,
    ensures
        !s.filter(|x: KnowledgeGovernanceRecord| is_indexed(x)).contains(rec),
{
    s.filter_lemma(|x: KnowledgeGovernanceRecord| is_indexed(x));
    if s.filter(|x: KnowledgeGovernanceRecord| is_indexed(x)).contains(rec) {
        let f = s.filter(|x: KnowledgeGovernanceRecord| is_indexed(x));
        let k = choose|k: int| 0 <= k < f.len() && f[k] == rec;
        assert(is_indexed(f[k]));
    }
}

} // verus!
