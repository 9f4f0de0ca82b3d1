//! The knowledge actions: their kinds, typed inputs and outputs, and the
//! executor that carries them out against a knowledge repository.
use crate::knowledge::{
    blank, KnowledgeEntryId, KnowledgeGetEntryActionInput, KnowledgeRepositoryError,
    KnowledgeSearchActionInput, KnowledgeValidationError, KNOWLEDGE_CREATE_DRAFT_ACTION_KIND,
    KNOWLEDGE_GET_ENTRY_ACTION_KIND, KNOWLEDGE_SAVE_ENTRY_ACTION_KIND,
    KNOWLEDGE_SEARCH_ACTION_KIND, KNOWLEDGE_UPDATE_ENTRY_ACTION_KIND,
};
use crate::ledger::{has_key, key_index, keyed, views, ArtifactId, AssetId};
use crate::repository::{
    is_search_outcome, saved_entry, updated_entry, KnowledgeEntryDraft, KnowledgeEntryRef,
    KnowledgeEntryUpdate, KnowledgeSearchResult, MemoryKnowledgeRepository,
    StoredKnowledgeEntry,
};
use crate::text::{decimal, owned, push_str, str_eq};
use vstd::prelude::*;

verus! {

impl KnowledgeValidationError {
    /// The error's message.
    pub open spec fn message(&self) -> Seq<char> {
        match self {
            KnowledgeValidationError::BlankTitle => "knowledge draft title cannot be blank"@,
            KnowledgeValidationError::BlankContent => "knowledge draft content cannot be blank"@,
        }
    }

    /// The error's message.
    pub fn to_string(&self) -> (r: String)
        ensures
            r@ == self.message(),
    {
        match self {
            KnowledgeValidationError::BlankTitle => owned("knowledge draft title cannot be blank"),
            KnowledgeValidationError::BlankContent => owned("knowledge draft content cannot be blank"),
        }
    }
}

impl KnowledgeRepositoryError {
    /// The error's message.
    pub open spec fn message(&self) -> Seq<char> {
        match self {
            KnowledgeRepositoryError::LockPoisoned => "knowledge repository lock poisoned"@,
            KnowledgeRepositoryError::Io(m) => "io error: "@ + m@,
            KnowledgeRepositoryError::FrontmatterParse { path, reason } =>
                "frontmatter parse error in "@ + path@ + ": "@ + reason@,
            KnowledgeRepositoryError::EntryExists(m) => "entry already exists: "@ + m@,
            KnowledgeRepositoryError::InvalidId(m) => "invalid entry id: "@ + m@,
            KnowledgeRepositoryError::NotFound(m) => "entry not found: "@ + m@,
        }
    }

    /// The error's message.
    pub fn to_string(&self) -> (r: String)
        ensures
            r@ == self.message(),
    {
        match self {
            KnowledgeRepositoryError::LockPoisoned => owned("knowledge repository lock poisoned"),
            KnowledgeRepositoryError::Io(m) => {
                let mut s = owned("io error: ");
                push_str(&mut s, m.as_str());
                s
            },
            KnowledgeRepositoryError::FrontmatterParse { path, reason } => {
                let mut s = owned("frontmatter parse error in ");
                push_str(&mut s, path.as_str());
                push_str(&mut s, ": ");
                push_str(&mut s, reason.as_str());
                s
            },
            KnowledgeRepositoryError::EntryExists(m) => {
                let mut s = owned("entry already exists: ");
                push_str(&mut s, m.as_str());
                s
            },
            KnowledgeRepositoryError::InvalidId(m) => {
                let mut s = owned("invalid entry id: ");
                push_str(&mut s, m.as_str());
                s
            },
            KnowledgeRepositoryError::NotFound(m) => {
                let mut s = owned("entry not found: ");
                push_str(&mut s, m.as_str());
                s
            },
        }
    }
}

/// The validation error of a draft's title and content, if any: a blank
/// title first, then blank content.
pub open spec fn draft_problem(title: Seq<char>, content: Seq<char>) -> Option<KnowledgeValidationError> {
    if blank(title) {
        Some(KnowledgeValidationError::BlankTitle)
    } else if blank(content) {
        Some(KnowledgeValidationError::BlankContent)
    } else {
        None
    }
}

/// Input for `knowledge.create_draft`; the time is Unix seconds.
#[derive(Debug, Clone, PartialEq)]
pub struct KnowledgeCreateDraftActionInput {
    pub title: String,
    pub content_markdown: String,
    pub source_uri: Option<String>,
    pub source_artifact_id: Option<ArtifactId>,
    pub source_asset_id: Option<AssetId>,
    pub tags: Vec<String>,
    pub metadata: serde_json::Value,
    pub created_at: i64,
}

/// The draft that create-draft input describes.
pub open spec fn draft_of_input(i: KnowledgeCreateDraftActionInput) -> KnowledgeEntryDraft {
    KnowledgeEntryDraft {
        title: i.title,
        content_markdown: i.content_markdown,
        source_uri: i.source_uri,
        source_artifact_id: i.source_artifact_id,
        source_asset_id: i.source_asset_id,
        tags: i.tags,
        metadata: i.metadata,
        created_at: i.created_at,
    }
}

impl KnowledgeCreateDraftActionInput {
    /// The draft the input describes, once its title and content pass
    /// validation.
    pub fn into_draft(self) -> (r: Result<KnowledgeEntryDraft, KnowledgeValidationError>)
        ensures
            match draft_problem(self.title@, self.content_markdown@) {
                Some(e) => r == Err::<KnowledgeEntryDraft, KnowledgeValidationError>(e),
                None => r == Ok::<KnowledgeEntryDraft, KnowledgeValidationError>(draft_of_input(self)),
            },
    {
        match crate::knowledge::validate_draft_fields(self.title.as_str(), self.content_markdown.as_str()) {
            Err(e) => Err(e),
            Ok(()) => Ok(
                KnowledgeEntryDraft {
                    title: self.title,
                    content_markdown: self.content_markdown,
                    source_uri: self.source_uri,
                    source_artifact_id: self.source_artifact_id,
                    source_asset_id: self.source_asset_id,
                    tags: self.tags,
                    metadata: self.metadata,
                    created_at: self.created_at,
                },
            ),
        }
    }
}

/// Input for `knowledge.save_entry`.
#[derive(Debug, Clone, PartialEq)]
pub struct KnowledgeSaveEntryActionInput {
    pub draft: KnowledgeEntryDraft,
}

/// Input for `knowledge.update_entry`.
#[derive(Debug, Clone, PartialEq)]
pub struct KnowledgeUpdateEntryActionInput {
    pub id: KnowledgeEntryId,
    pub update: KnowledgeEntryUpdate,
}

/// The knowledge actions.
#[derive(Debug, Clone, Copy, PartialEq, Eq, Structural)]
pub enum KnowledgeActionKind {
    Search,
    GetEntry,
    CreateDraft,
    SaveEntry,
    UpdateEntry,
}

/// The knowledge action an action kind names, if it names one.
pub open spec fn knowledge_action_kind_of(kind: Seq<char>) -> Option<KnowledgeActionKind> {
    if kind == KNOWLEDGE_SEARCH_ACTION_KIND@ {
        Some(KnowledgeActionKind::Search)
    } else if kind == KNOWLEDGE_GET_ENTRY_ACTION_KIND@ {
        Some(KnowledgeActionKind::GetEntry)
    } else if kind == KNOWLEDGE_CREATE_DRAFT_ACTION_KIND@ {
        Some(KnowledgeActionKind::CreateDraft)
    } else if kind == KNOWLEDGE_SAVE_ENTRY_ACTION_KIND@ {
        Some(KnowledgeActionKind::SaveEntry)
    } else if kind == KNOWLEDGE_UPDATE_ENTRY_ACTION_KIND@ {
        Some(KnowledgeActionKind::UpdateEntry)
    } else {
        None
    }
}

impl KnowledgeActionKind {
    /// The knowledge action an action kind names; other kinds are not
    /// supported.
    pub fn of(kind: &str) -> (r: Option<KnowledgeActionKind>)
        ensures
            r == knowledge_action_kind_of(kind@),
    {
        if str_eq(kind, KNOWLEDGE_SEARCH_ACTION_KIND) {
            Some(KnowledgeActionKind::Search)
        } else if str_eq(kind, KNOWLEDGE_GET_ENTRY_ACTION_KIND) {
            Some(KnowledgeActionKind::GetEntry)
        } else if str_eq(kind, KNOWLEDGE_CREATE_DRAFT_ACTION_KIND) {
            Some(KnowledgeActionKind::CreateDraft)
        } else if str_eq(kind, KNOWLEDGE_SAVE_ENTRY_ACTION_KIND) {
            Some(KnowledgeActionKind::SaveEntry)
        } else if str_eq(kind, KNOWLEDGE_UPDATE_ENTRY_ACTION_KIND) {
            Some(KnowledgeActionKind::UpdateEntry)
        } else {
            None
        }
    }
}

/// A decoded knowledge action request.
#[derive(Debug, Clone, PartialEq)]
pub enum KnowledgeActionInput {
    Search(KnowledgeSearchActionInput),
    GetEntry(KnowledgeGetEntryActionInput),
    CreateDraft(KnowledgeCreateDraftActionInput),
    SaveEntry(KnowledgeSaveEntryActionInput),
    UpdateEntry(KnowledgeUpdateEntryActionInput),
}

/// What a knowledge action gives back.
#[derive(Debug, Clone, PartialEq)]
pub enum KnowledgeActionOutput {
    Results(Vec<KnowledgeSearchResult>),
    Entry(Option<KnowledgeEntryRef>),
    Draft(KnowledgeEntryDraft),
    Saved(KnowledgeEntryRef),
    Updated(KnowledgeEntryRef),
}

/// Why a knowledge action failed.
#[derive(Debug, Clone, PartialEq, Eq)]
pub enum KnowledgeActionError {
    /// The input was not valid for the action.
    InvalidInput(String),
    /// The repository could not carry the action out.
    ExecutionFailed(String),
    /// The action kind is not a knowledge action.
    NotSupported(String),
}

/// Carries out knowledge actions against an in-memory repository.
#[derive(Debug, Clone)]
pub struct KnowledgeActionExecutor {
    pub repository: MemoryKnowledgeRepository,
}

impl KnowledgeActionExecutor {
    /// An executor over `repository`.
    pub fn new(repository: MemoryKnowledgeRepository) -> (r: Self)
        ensures
            r.repository@ == repository@,
    {
        KnowledgeActionExecutor { repository }
    }

    /// Carries out one action: a search or lookup reads the repository; a
    /// created draft is validated and handed back; a saved draft is
    /// validated and stored under the next id; an update changes the entry
    /// it names. Invalid drafts are refused as invalid input, and
    /// repository failures are reported with their message.
    pub fn execute(&mut self, input: KnowledgeActionInput) -> (r: Result<KnowledgeActionOutput, KnowledgeActionError>)
        requires
            old(self).repository.wf(),
            old(self).repository@.len() < usize::MAX,
        ensures
            final(self).repository.wf(),
            match input {
                KnowledgeActionInput::Search(i) => final(self).repository@ == old(self).repository@ && (r matches Ok(
                    KnowledgeActionOutput::Results(v),
                ) && is_search_outcome(old(self).repository@, i.query, views(v@))),
                KnowledgeActionInput::GetEntry(i) => final(self).repository@ == old(self).repository@ && (r matches Ok(
                    KnowledgeActionOutput::Entry(o),
                ) && match o {
                    Some(e) => keyed::<StoredKnowledgeEntry>(old(self).repository@, i.id@) matches Some(s)
                        && s.entry_ref == e,
                    None => !has_key::<StoredKnowledgeEntry>(old(self).repository@, i.id@),
                }),
                KnowledgeActionInput::CreateDraft(i) => final(self).repository@ == old(self).repository@
                    && match draft_problem(i.title@, i.content_markdown@) {
                    Some(e) => r matches Err(KnowledgeActionError::InvalidInput(m)) && m@ == e.message(),
                    None => r == Ok::<KnowledgeActionOutput, KnowledgeActionError>(
                        KnowledgeActionOutput::Draft(draft_of_input(i)),
                    ),
                },
                KnowledgeActionInput::SaveEntry(i) => match draft_problem(
                    i.draft.title@,
                    i.draft.content_markdown@,
                ) {
                    Some(e) => final(self).repository@ == old(self).repository@ && (r matches Err(
                        KnowledgeActionError::InvalidInput(m),
                    ) && m@ == e.message()),
                    None => r matches Ok(KnowledgeActionOutput::Saved(e)) && e.id@ == "knowledge-entry-"@
                        + decimal((old(self).repository@.len() + 1) as nat) && final(self).repository@
                        == old(self).repository@.push(saved_entry(i.draft, e.id)),
                },
                KnowledgeActionInput::UpdateEntry(i) => if has_key::<StoredKnowledgeEntry>(
                    old(self).repository@,
                    i.id@,
                ) {
                    let k = key_index::<StoredKnowledgeEntry>(old(self).repository@, i.id@);
                    &&& r matches Ok(KnowledgeActionOutput::Updated(e)) && e == updated_entry(
                        old(self).repository@[k],
                        i.update,
                    ).entry_ref
                    &&& final(self).repository@ == old(self).repository@.update(
                        k,
                        updated_entry(old(self).repository@[k], i.update),
                    )
                } else {
                    &&& r matches Err(KnowledgeActionError::ExecutionFailed(m)) && m@ == "entry not found: "@
                        + i.id@
                    &&& final(self).repository@ == old(self).repository@
                },
            },
    {
        match input {
            KnowledgeActionInput::Search(i) => match self.repository.search(&i.query) {
                Ok(results) => Ok(KnowledgeActionOutput::Results(results)),
                Err(e) => Err(KnowledgeActionError::ExecutionFailed(e.to_string())),
            },
            KnowledgeActionInput::GetEntry(i) => match self.repository.get_entry(&i.id) {
                Ok(entry) => Ok(KnowledgeActionOutput::Entry(entry)),
                Err(e) => Err(KnowledgeActionError::ExecutionFailed(e.to_string())),
            },
            KnowledgeActionInput::CreateDraft(i) => match i.into_draft() {
                Ok(draft) => Ok(KnowledgeActionOutput::Draft(draft)),
                Err(e) => Err(KnowledgeActionError::InvalidInput(e.to_string())),
            },
            KnowledgeActionInput::SaveEntry(i) => {
                match i.draft.validate_for_write() {
                    Err(e) => {
                        return Err(KnowledgeActionError::InvalidInput(e.to_string()));
                    },
                    Ok(()) => {},
                }
                match self.repository.save_draft(i.draft) {
                    Ok(entry) => Ok(KnowledgeActionOutput::Saved(entry)),
                    Err(e) => Err(KnowledgeActionError::ExecutionFailed(e.to_string())),
                }
            },
            KnowledgeActionInput::UpdateEntry(i) => match self.repository.update_entry(&i.id, i.update) {
                Ok(entry) => Ok(KnowledgeActionOutput::Updated(entry)),
                Err(e) => Err(KnowledgeActionError::ExecutionFailed(e.to_string())),
            },
        }
    }
}

} // verus!
