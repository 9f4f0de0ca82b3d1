//! Mail entity: accounts, messages and threads, addresses as displayed,
//! triage and drafts, and a deterministic in-memory repository with the
//! listing order the assistant relies on. Times are Unix seconds.
use crate::text::{decimal, owned, push_decimal, push_str, str_eq, IntoText};
use vstd::prelude::*;

verus! {

/// Action kind for listing recent mail.
pub const MAIL_LIST_RECENT_ACTION_KIND: &'static str = "mail.list_recent";

/// Action kind for reading one message.
pub const MAIL_GET_MESSAGE_ACTION_KIND: &'static str = "mail.get_message";

/// Action kind for summarizing a thread.
pub const MAIL_SUMMARIZE_THREAD_ACTION_KIND: &'static str = "mail.summarize_thread";

/// Action kind for drafting a reply.
pub const MAIL_CREATE_DRAFT_REPLY_ACTION_KIND: &'static str = "mail.create_draft_reply";

/// Action kind for sending mail.
pub const MAIL_SEND_ACTION_KIND: &'static str = "mail.send";

/// Unique identifier for a mail account.
#[derive(Debug, Clone, PartialEq, Eq, Hash)]
pub struct MailAccountId(pub String);

impl View for MailAccountId {
    type V = Seq<char>;

    open spec fn view(&self) -> Seq<char> {
        self.0@
    }
}

impl IntoText for MailAccountId {
    open spec fn text(&self) -> Seq<char> {
        self@
    }

    fn into_text(self) -> (r: String) {
        self.0
    }
}

impl MailAccountId {
    /// Builds the id from text.
    pub fn from<T: IntoText>(s: T) -> (r: MailAccountId)
        ensures
            r@ == s.text(),
    {
        MailAccountId(s.into_text())
    }

    /// The id as it is displayed: its text.
    pub fn to_string(&self) -> (r: String)
        ensures
            r@ == self@,
    {
        self.0.clone()
    }

    /// The id as text.
    pub fn as_str(&self) -> (r: &str)
        ensures
            r@ == self@,
    {
        self.0.as_str()
    }

    /// Whether two ids hold the same text.
    pub fn same(&self, other: &MailAccountId) -> (r: bool)
        ensures
            r == (self@ == other@),
    {
        self.0 == other.0
    }

    /// An equal copy of the id.
    pub fn duplicate(&self) -> (r: MailAccountId)
        ensures
            r == *self,
    {
        MailAccountId(self.0.clone())
    }
}

/// Unique identifier for a mail message.
#[derive(Debug, Clone, PartialEq, Eq, Hash)]
pub struct MailMessageId(pub String);

impl View for MailMessageId {
    type V = Seq<char>;

    open spec fn view(&self) -> Seq<char> {
        self.0@
    }
}

impl IntoText for MailMessageId {
    open spec fn text(&self) -> Seq<char> {
        self@
    }

    fn into_text(self) -> (r: String) {
        self.0
    }
}

impl MailMessageId {
    /// Builds the id from text.
    pub fn from<T: IntoText>(s: T) -> (r: MailMessageId)
        ensures
            r@ == s.text(),
    {
        MailMessageId(s.into_text())
    }

    /// The id as it is displayed: its text.
    pub fn to_string(&self) -> (r: String)
        ensures
            r@ == self@,
    {
        self.0.clone()
    }

    /// The id as text.
    pub fn as_str(&self) -> (r: &str)
        ensures
            r@ == self@,
    {
        self.0.as_str()
    }

    /// Whether two ids hold the same text.
    pub fn same(&self, other: &MailMessageId) -> (r: bool)
        ensures
            r == (self@ == other@),
    {
        self.0 == other.0
    }

    /// An equal copy of the id.
    pub fn duplicate(&self) -> (r: MailMessageId)
        ensures
            r == *self,
    {
        MailMessageId(self.0.clone())
    }
}

/// Unique identifier for a mail thread.
#[derive(Debug, Clone, PartialEq, Eq, Hash)]
pub struct MailThreadId(pub String);

impl View for MailThreadId {
    type V = Seq<char>;

    open spec fn view(&self) -> Seq<char> {
        self.0@
    }
}

impl IntoText for MailThreadId {
    open spec fn text(&self) -> Seq<char> {
        self@
    }

    fn into_text(self) -> (r: String) {
        self.0
    }
}

impl MailThreadId {
    /// Builds the id from text.
    pub fn from<T: IntoText>(s: T) -> (r: MailThreadId)
        ensures
            r@ == s.text(),
    {
        MailThreadId(s.into_text())
    }

    /// The id as it is displayed: its text.
    pub fn to_string(&self) -> (r: String)
        ensures
            r@ == self@,
    {
        self.0.clone()
    }

    /// The id as text.
    pub fn as_str(&self) -> (r: &str)
        ensures
            r@ == self@,
    {
        self.0.as_str()
    }

    /// Whether two ids hold the same text.
    pub fn same(&self, other: &MailThreadId) -> (r: bool)
        ensures
            r == (self@ == other@),
    {
        self.0 == other.0
    }

    /// An equal copy of the id.
    pub fn duplicate(&self) -> (r: MailThreadId)
        ensures
            r == *self,
    {
        MailThreadId(self.0.clone())
    }
}

/// Sender or recipient of a mail message.
#[derive(Debug, Clone, PartialEq, Eq)]
pub struct MailAddress {
    pub email: String,
    pub display_name: Option<String>,
}

impl MailAddress {
    /// An address without a display name.
    pub fn new<E: IntoText>(email: E) -> (r: Self)
        ensures
            r.email@ == email.text(),
            r.display_name is None,
    {
        MailAddress { email: email.into_text(), display_name: None }
    }

    /// The same address with a display name.
    pub fn with_display_name<N: IntoText>(self, name: N) -> (r: Self)
        ensures
            r.email == self.email,
            r.display_name matches Some(n) && n@ == name.text(),
    {
        MailAddress { email: self.email, display_name: Some(name.into_text()) }
    }

    /// The address as displayed: `Name <email>`, or the email alone.
    pub open spec fn display(self) -> Seq<char> {
        match self.display_name {
            Some(n) => n@ + " <"@ + self.email@ + ">"@,
            None => self.email@,
        }
    }

    /// The address as displayed.
    pub fn to_string(&self) -> (r: String)
        ensures
            r@ == self.display(),
    {
        match &self.display_name {
            Some(n) => {
                let mut s = n.clone();
                push_str(&mut s, " <");
                push_str(&mut s, self.email.as_str());
                push_str(&mut s, ">");
                s
            },
            None => self.email.clone(),
        }
    }

    /// An equal copy.
    pub fn duplicate(&self) -> (r: Self)
        ensures
            r == *self,
    {
        MailAddress {
            email: self.email.clone(),
            display_name: match &self.display_name {
                Some(n) => Some(n.clone()),
                None => None,
            },
        }
    }
}

fn duplicate_addresses(s: &Vec<MailAddress>) -> (r: Vec<MailAddress>)
    ensures
        r@ == s@,
{
    let mut out: Vec<MailAddress> = Vec::new();
    let mut i: usize = 0;
    while i < s.len()
        invariant
            i <= s@.len(),
            out@ == s@.take(i as int),
        decreases s@.len() - i,
    {
        out.push(s[i].duplicate());
        proof {
            assert(s@.take(i + 1) == s@.take(i as int).push(s@[i as int]));
        }
        i = i + 1;
    }
    proof {
        assert(s@.take(s@.len() as int) == s@);
    }
    out
}

/// Summary of a mail message, for listing and triage.
#[derive(Debug, Clone, PartialEq)]
pub struct MailMessageSummary {
    pub id: MailMessageId,
    pub thread_id: MailThreadId,
    pub account_id: MailAccountId,
    pub subject: String,
    pub from: MailAddress,
    pub to: Vec<MailAddress>,
    pub snippet: String,
    pub received_at: i64,
    pub is_read: bool,
    pub has_attachments: bool,
}

/// A summary as values.
pub struct SummaryView {
    pub id: Seq<char>,
    pub thread_id: Seq<char>,
    pub account_id: Seq<char>,
    pub subject: Seq<char>,
    pub from: MailAddress,
    pub to: Seq<MailAddress>,
    pub snippet: Seq<char>,
    pub received_at: i64,
    pub is_read: bool,
    pub has_attachments: bool,
}

impl View for MailMessageSummary {
    type V = SummaryView;

    open spec fn view(&self) -> SummaryView {
        SummaryView {
            id: self.id@,
            thread_id: self.thread_id@,
            account_id: self.account_id@,
            subject: self.subject@,
            from: self.from,
            to: self.to@,
            snippet: self.snippet@,
            received_at: self.received_at,
            is_read: self.is_read,
            has_attachments: self.has_attachments,
        }
    }
}

impl MailMessageSummary {
    /// A copy with the same value.
    pub fn duplicate(&self) -> (r: Self)
        ensures
            r@ == self@,
    {
        MailMessageSummary {
            id: self.id.duplicate(),
            thread_id: self.thread_id.duplicate(),
            account_id: self.account_id.duplicate(),
            subject: self.subject.clone(),
            from: self.from.duplicate(),
            to: duplicate_addresses(&self.to),
            snippet: self.snippet.clone(),
            received_at: self.received_at,
            is_read: self.is_read,
            has_attachments: self.has_attachments,
        }
    }
}

/// Metadata for a mail attachment.
#[derive(Debug, Clone, PartialEq, Eq)]
pub struct MailAttachment {
    pub filename: String,
    pub content_type: String,
    pub size_bytes: u64,
}

/// Full mail message content.
#[derive(Debug, Clone, PartialEq)]
pub struct MailMessage {
    pub id: MailMessageId,
    pub thread_id: MailThreadId,
    pub account_id: MailAccountId,
    pub subject: String,
    pub from: MailAddress,
    pub to: Vec<MailAddress>,
    pub cc: Vec<MailAddress>,
    pub body_text: String,
    pub body_html: Option<String>,
    pub received_at: i64,
    pub is_read: bool,
    pub has_attachments: bool,
    pub attachments: Vec<MailAttachment>,
}

/// A message as values.
pub struct MessageView {
    pub id: Seq<char>,
    pub thread_id: Seq<char>,
    pub account_id: Seq<char>,
    pub subject: Seq<char>,
    pub from: MailAddress,
    pub to: Seq<MailAddress>,
    pub cc: Seq<MailAddress>,
    pub body_text: Seq<char>,
    pub body_html: Option<String>,
    pub received_at: i64,
    pub is_read: bool,
    pub has_attachments: bool,
    pub attachments: Seq<MailAttachment>,
}

impl View for MailMessage {
    type V = MessageView;

    open spec fn view(&self) -> MessageView {
        MessageView {
            id: self.id@,
            thread_id: self.thread_id@,
            account_id: self.account_id@,
            subject: self.subject@,
            from: self.from,
            to: self.to@,
            cc: self.cc@,
            body_text: self.body_text@,
            body_html: self.body_html,
            received_at: self.received_at,
            is_read: self.is_read,
            has_attachments: self.has_attachments,
            attachments: self.attachments@,
        }
    }
}

impl MailMessage {
    /// A copy with the same value.
    pub fn duplicate(&self) -> (r: Self)
        ensures
            r@ == self@,
    {
        let mut attachments: Vec<MailAttachment> = Vec::new();
        let mut i: usize = 0;
        while i < self.attachments.len()
            invariant
                i <= self.attachments@.len(),
                attachments@ == self.attachments@.take(i as int),
            decreases self.attachments@.len() - i,
        {
            let a = &self.attachments[i];
            attachments.push(
                MailAttachment {
                    filename: a.filename.clone(),
                    content_type: a.content_type.clone(),
                    size_bytes: a.size_bytes,
                },
            );
            proof {
                assert(self.attachments@.take(i + 1) == self.attachments@.take(i as int).push(
                    self.attachments@[i as int],
                ));
            }
            i = i + 1;
        }
        proof {
            assert(self.attachments@.take(self.attachments@.len() as int) == self.attachments@);
        }
        MailMessage {
            id: self.id.duplicate(),
            thread_id: self.thread_id.duplicate(),
            account_id: self.account_id.duplicate(),
            subject: self.subject.clone(),
            from: self.from.duplicate(),
            to: duplicate_addresses(&self.to),
            cc: duplicate_addresses(&self.cc),
            body_text: self.body_text.clone(),
            body_html: match &self.body_html {
                Some(h) => Some(h.clone()),
                None => None,
            },
            received_at: self.received_at,
            is_read: self.is_read,
            has_attachments: self.has_attachments,
            attachments,
        }
    }
}

/// Triage category for a mail message.
#[derive(Debug, Clone, Copy, PartialEq, Eq)]
pub enum TriageCategory {
    Urgent,
    Important,
    Newsletter,
    Notification,
    Social,
    Spam,
    LowPriority,
}

/// Result of triaging a mail message.
#[derive(Debug, Clone, PartialEq)]
pub struct MailTriageResult {
    pub message_id: MailMessageId,
    pub category: TriageCategory,
    pub reason: String,
    pub suggested_action: Option<String>,
}

/// A draft reply to a mail message.
#[derive(Debug, Clone, PartialEq)]
pub struct MailDraft {
    pub reply_to: MailMessageId,
    pub to: Vec<MailAddress>,
    pub subject: String,
    pub body_text: String,
    pub created_at: i64,
}

/// Input for `mail.list_recent`.
#[derive(Debug, Clone, PartialEq, Eq)]
pub struct MailListRecentActionInput {
    pub account_id: String,
    pub max_results: Option<usize>,
    pub unread_only: Option<bool>,
}

/// Input for `mail.get_message`.
#[derive(Debug, Clone, PartialEq, Eq)]
pub struct MailGetMessageActionInput {
    pub message_id: String,
}

/// Input for `mail.summarize_thread`.
#[derive(Debug, Clone, PartialEq, Eq)]
pub struct MailSummarizeThreadActionInput {
    pub thread_id: String,
}

/// Input for `mail.create_draft_reply`.
#[derive(Debug, Clone, PartialEq, Eq)]
pub struct MailCreateDraftReplyActionInput {
    pub message_id: String,
    pub body_text: String,
}

/// Input for `mail.send`.
#[derive(Debug, Clone, PartialEq)]
pub struct MailSendActionInput {
    pub draft: MailDraft,
}

/// Errors from mail repository operations.
#[derive(Debug, Clone, PartialEq, Eq)]
pub enum MailRepositoryError {
    AccountNotFound(String),
    MessageNotFound(String),
    ThreadNotFound(String),
    Io(String),
}

impl MailRepositoryError {
    /// The error's message.
    pub open spec fn message(&self) -> Seq<char> {
        match self {
            MailRepositoryError::AccountNotFound(a) => "account not found: "@ + a@,
            MailRepositoryError::MessageNotFound(m) => "message not found: "@ + m@,
            MailRepositoryError::ThreadNotFound(t) => "thread not found: "@ + t@,
            MailRepositoryError::Io(e) => "io error: "@ + e@,
        }
    }

    /// The error's message.
    pub fn to_string(&self) -> (r: String)
        ensures
            r@ == self.message(),
    {
        let (prefix, detail) = match self {
            MailRepositoryError::AccountNotFound(a) => ("account not found: ", a),
            MailRepositoryError::MessageNotFound(m) => ("message not found: ", m),
            MailRepositoryError::ThreadNotFound(t) => ("thread not found: ", t),
            MailRepositoryError::Io(e) => ("io error: ", e),
        };
        let mut s = owned(prefix);
        push_str(&mut s, detail.as_str());
        s
    }
}


/// Whether item `a` is listed before item `b`: by key, descending or
/// ascending, and in original order when keys are equal.
pub open spec fn listed_before(keys: Seq<i64>, desc: bool, a: int, b: int) -> bool {
    (if desc {
        keys[a] > keys[b]
    } else {
        keys[a] < keys[b]
    }) || (keys[a] == keys[b] && a < b)
}

/// Whether `idx` lists exactly the selected items, in listing order.
pub open spec fn is_listing(idx: Seq<int>, keys: Seq<i64>, selected: Seq<bool>, desc: bool) -> bool {
    &&& forall|k: int| 0 <= k < idx.len() ==> 0 <= #[trigger] idx[k] < keys.len()
    &&& forall|k: int, l: int|
        0 <= k < l < idx.len() ==> listed_before(keys, desc, #[trigger] idx[k], #[trigger] idx[l])
    &&& forall|i: int| 0 <= i < keys.len() ==> (selected[i] <==> idx.contains(i))
}

fn before_exec(keys: &Vec<i64>, desc: bool, a: usize, b: usize) -> (r: bool)
    requires
        a < keys@.len(),
        b < keys@.len(),
    ensures
        r == listed_before(keys@, desc, a as int, b as int),
{
    (if desc {
        keys[a] > keys[b]
    } else {
        keys[a] < keys[b]
    }) || (keys[a] == keys[b] && a < b)
}

fn listing_indices(keys: &Vec<i64>, selected: &Vec<bool>, desc: bool) -> (r: Vec<usize>)
    requires
        keys@.len() == selected@.len(),
    ensures
        is_listing(r@.map_values(|i: usize| i as int), keys@, selected@, desc),
{
    let n = keys.len();
    let mut idx: Vec<usize> = Vec::new();
    let mut i: usize = 0;
    while i < n
        invariant
            n == keys@.len(),
            n == selected@.len(),
            i <= n,
            forall|k: int| 0 <= k < idx@.len() ==> (#[trigger] idx@[k]) < i,
            forall|k: int, l: int|
                0 <= k < l < idx@.len() ==> listed_before(keys@, desc, #[trigger] idx@[k] as int, #[trigger] idx@[l] as int),
            forall|j: int| 0 <= j < i ==> (selected@[j] <==> #[trigger] idx@.contains(j as usize)),
            forall|j: int| i <= j < n ==> !(#[trigger] idx@.contains(j as usize)),
        decreases n - i,
    {
        if selected[i] {
            let mut p: usize = 0;
            while p < idx.len() && before_exec(keys, desc, idx[p], i)
                invariant
                    p <= idx@.len(),
                    n == keys@.len(),
                    i < n,
                    forall|k: int| 0 <= k < idx@.len() ==> (#[trigger] idx@[k]) < i,
                    forall|k: int| 0 <= k < p ==> listed_before(keys@, desc, #[trigger] idx@[k] as int, i as int),
                decreases idx@.len() - p,
            {
                p = p + 1;
            }
            let ghost before = idx@;
            idx.insert(p, i);
            proof {
                assert forall|k: int, l: int| 0 <= k < l < idx@.len() implies listed_before(
                    keys@,
                    desc,
                    #[trigger] idx@[k] as int,
                    #[trigger] idx@[l] as int,
                ) by {
                    if l < p {
                        assert(idx@[k] == before[k] && idx@[l] == before[l]);
                    } else if l == p {
                        assert(idx@[k] == before[k]);
                    } else if k == p {
                        assert(idx@[l] == before[l - 1]);
                        assert(listed_before(keys@, desc, i as int, before[p as int] as int));
                        if l - 1 > p {
                            assert(listed_before(keys@, desc, before[p as int] as int, before[l - 1] as int));
                        }
                    } else if k < p {
                        assert(idx@[k] == before[k] && idx@[l] == before[l - 1]);
                    } else {
                        assert(idx@[k] == before[k - 1] && idx@[l] == before[l - 1]);
                    }
                }
                assert forall|j: int| 0 <= j < i + 1 implies (selected@[j] <==> #[trigger] idx@.contains(j as usize)) by {
                    if j < i {
                        if before.contains(j as usize) {
                            let w = choose|w: int| 0 <= w < before.len() && before[w] == j as usize;
                            if w < p {
                                assert(idx@[w] == before[w]);
                            } else {
                                assert(idx@[w + 1] == before[w]);
                            }
                        }
                        if idx@.contains(j as usize) {
                            let w = choose|w: int| 0 <= w < idx@.len() && idx@[w] == j as usize;
                            if w < p {
                                assert(idx@[w] == before[w]);
                            } else if w > p {
                                assert(idx@[w] == before[w - 1]);
                            }
                        }
                    } else {
                        assert(idx@[p as int] == i);
                    }
                }
                assert forall|j: int| i + 1 <= j < n implies !(#[trigger] idx@.contains(j as usize)) by {
                    if idx@.contains(j as usize) {
                        let w = choose|w: int| 0 <= w < idx@.len() && idx@[w] == j as usize;
                        if w < p {
                            assert(idx@[w] == before[w]);
                        } else if w > p {
                            assert(idx@[w] == before[w - 1]);
                        }
                    }
                }
            }
        }
        i = i + 1;
    }
    proof {
        let m = idx@.map_values(|i: usize| i as int);
        assert forall|j: int| 0 <= j < n implies (selected@[j] <==> m.contains(j)) by {
            if idx@.contains(j as usize) {
                let w = choose|w: int| 0 <= w < idx@.len() && idx@[w] == j as usize;
                assert(m[w] == j);
            }
            if m.contains(j) {
                let w = choose|w: int| 0 <= w < m.len() && m[w] == j;
                assert(idx@[w] == j as usize);
            }
        }
    }
    idx
}

/// Deterministic in-memory mail repository for tests.
#[derive(Debug, Clone, Default)]
pub struct FakeMailRepository {
    messages: Vec<MailMessage>,
    summaries: Vec<MailMessageSummary>,
}

/// The receive times of summaries.
pub open spec fn summary_keys(s: Seq<MailMessageSummary>) -> Seq<i64> {
    s.map_values(|m: MailMessageSummary| m.received_at)
}

/// The receive times of messages.
pub open spec fn message_keys(s: Seq<MailMessage>) -> Seq<i64> {
    s.map_values(|m: MailMessage| m.received_at)
}

/// Which summaries a listing may show: all, or only unread ones.
pub open spec fn listed_summaries(s: Seq<MailMessageSummary>, unread_only: bool) -> Seq<bool> {
    s.map_values(|m: MailMessageSummary| !unread_only || !m.is_read)
}

/// Which messages belong to a thread.
pub open spec fn thread_members(s: Seq<MailMessage>, thread_id: Seq<char>) -> Seq<bool> {
    s.map_values(|m: MailMessage| m.thread_id@ == thread_id)
}

impl FakeMailRepository {
    pub fn new() -> (r: Self)
        ensures
            r.messages_spec().len() == 0,
            r.summaries_spec().len() == 0,
    {
        FakeMailRepository { messages: Vec::new(), summaries: Vec::new() }
    }

    pub closed spec fn messages_spec(&self) -> Seq<MailMessage> {
        self.messages@
    }

    pub closed spec fn summaries_spec(&self) -> Seq<MailMessageSummary> {
        self.summaries@
    }

    /// Whether `v` is a listing of recent summaries: the most recently
    /// received first (ties in stored order), only unread ones when asked,
    /// at most `max_results`.
    pub open spec fn is_recent_listing(
        &self,
        v: Seq<MailMessageSummary>,
        max_results: usize,
        unread_only: bool,
    ) -> bool {
        exists|idx: Seq<int>|
            {
                &&& #[trigger] is_listing(
                    idx,
                    summary_keys(self.summaries_spec()),
                    listed_summaries(self.summaries_spec(), unread_only),
                    true,
                )
                &&& v.len() == if idx.len() < max_results {
                    idx.len()
                } else {
                    max_results as nat
                }
                &&& forall|k: int| 0 <= k < v.len() ==> (#[trigger] v[k])@ == self.summaries_spec()[idx[k]]@
            }
    }

    /// Whether `o` is the lookup of `message_id`: the first stored message
    /// with that id, or nothing when none has it.
    pub open spec fn is_message_lookup(&self, message_id: Seq<char>, o: Option<MailMessage>) -> bool {
        match o {
            Some(m) => exists|i: int|
                0 <= i < self.messages_spec().len() && self.messages_spec()[i].id@ == message_id
                    && m@ == self.messages_spec()[i]@ && forall|j: int|
                    0 <= j < i ==> (#[trigger] self.messages_spec()[j]).id@ != message_id,
            None => forall|i: int|
                0 <= i < self.messages_spec().len() ==> (#[trigger] self.messages_spec()[i]).id@
                    != message_id,
        }
    }

    /// Whether `v` lists the messages of thread `thread_id`, earliest first
    /// (ties in stored order).
    pub open spec fn is_thread_listing(&self, thread_id: Seq<char>, v: Seq<MailMessage>) -> bool {
        exists|idx: Seq<int>|
            {
                &&& #[trigger] is_listing(
                    idx,
                    message_keys(self.messages_spec()),
                    thread_members(self.messages_spec(), thread_id),
                    false,
                )
                &&& v.len() == idx.len()
                &&& forall|k: int| 0 <= k < v.len() ==> (#[trigger] v[k])@ == self.messages_spec()[idx[k]]@
            }
    }

    /// The same repository holding `messages`.
    pub fn with_messages(self, messages: Vec<MailMessage>) -> (r: Self)
        ensures
            r.messages_spec() == messages@,
            r.summaries_spec() == self.summaries_spec(),
    {
        FakeMailRepository { messages, summaries: self.summaries }
    }

    /// The same repository holding `summaries`.
    pub fn with_summaries(self, summaries: Vec<MailMessageSummary>) -> (r: Self)
        ensures
            r.summaries_spec() == summaries@,
            r.messages_spec() == self.messages_spec(),
    {
        FakeMailRepository { messages: self.messages, summaries }
    }

    /// The most recently received summaries first (ties in stored order),
    /// only unread ones when asked, at most `max_results`. The account is
    /// not used.
    pub fn list_recent(&self, account_id: &str, max_results: usize, unread_only: bool) -> (r: Result<
        Vec<MailMessageSummary>,
        MailRepositoryError,
    >)
        ensures
            r matches Ok(v) && self.is_recent_listing(v@, max_results, unread_only),
    {
        let n = self.summaries.len();
        let mut keys: Vec<i64> = Vec::new();
        let mut selected: Vec<bool> = Vec::new();
        let mut i: usize = 0;
        while i < n
            invariant
                n == self.summaries@.len(),
                i <= n,
                keys@ == summary_keys(self.summaries@).take(i as int),
                selected@ == listed_summaries(self.summaries@, unread_only).take(i as int),
            decreases n - i,
        {
            keys.push(self.summaries[i].received_at);
            selected.push(!unread_only || !self.summaries[i].is_read);
            proof {
                assert(summary_keys(self.summaries@).take(i + 1) == summary_keys(self.summaries@).take(i as int).push(self.summaries@[i as int].received_at));
                assert(listed_summaries(self.summaries@, unread_only).take(i + 1)
                    == listed_summaries(self.summaries@, unread_only).take(i as int).push(!unread_only || !self.summaries@[i as int].is_read));
            }
            i = i + 1;
        }
        proof {
            assert(summary_keys(self.summaries@).take(n as int) == summary_keys(self.summaries@));
            assert(listed_summaries(self.summaries@, unread_only).take(n as int)
                == listed_summaries(self.summaries@, unread_only));
        }
        let idx = listing_indices(&keys, &selected, true);
        let ghost iv = idx@.map_values(|i: usize| i as int);
        let count = if idx.len() < max_results { idx.len() } else { max_results };
        let mut out: Vec<MailMessageSummary> = Vec::new();
        let mut k: usize = 0;
        assert(iv.len() == idx@.len());
        while k < count
            invariant
                count <= idx@.len(),
                iv.len() == idx@.len(),
                count == if iv.len() < max_results { iv.len() } else { max_results as nat },
                is_listing(iv, summary_keys(self.summaries@), listed_summaries(self.summaries@, unread_only), true),
                k <= count,
                iv == idx@.map_values(|i: usize| i as int),
                forall|j: int| 0 <= j < iv.len() ==> 0 <= #[trigger] iv[j] < self.summaries@.len(),
                out@.len() == k,
                forall|j: int| 0 <= j < k ==> (#[trigger] out@[j])@ == self.summaries@[iv[j]]@,
            decreases count - k,
        {
            let j = idx[k];
            assert(iv[k as int] == j as int);
            out.push(self.summaries[j].duplicate());
            k = k + 1;
        }
        assert(is_listing(
            iv,
            summary_keys(self.summaries_spec()),
            listed_summaries(self.summaries_spec(), unread_only),
            true,
        ));
        assert(forall|k: int| 0 <= k < out@.len() ==> (#[trigger] out@[k])@ == self.summaries_spec()[iv[k]]@);
        Ok(out)
    }

    /// The message with the id, if any: the first one stored.
    pub fn get_message(&self, message_id: &str) -> (r: Result<Option<MailMessage>, MailRepositoryError>)
        ensures
            r matches Ok(o) && self.is_message_lookup(message_id@, o),
    {
        let mut i: usize = 0;
        while i < self.messages.len()
            invariant
                i <= self.messages@.len(),
                forall|j: int| 0 <= j < i ==> (#[trigger] self.messages@[j]).id@ != message_id@,
            decreases self.messages@.len() - i,
        {
            if str_eq(self.messages[i].id.as_str(), message_id) {
                return Ok(Some(self.messages[i].duplicate()));
            }
            i = i + 1;
        }
        Ok(None)
    }

    /// The messages of a thread, earliest first (ties in stored order).
    pub fn get_thread_messages(&self, thread_id: &str) -> (r: Result<Vec<MailMessage>, MailRepositoryError>)
        ensures
            r matches Ok(v) && self.is_thread_listing(thread_id@, v@),
    {
        let n = self.messages.len();
        let mut keys: Vec<i64> = Vec::new();
        let mut selected: Vec<bool> = Vec::new();
        let mut i: usize = 0;
        while i < n
            invariant
                n == self.messages@.len(),
                i <= n,
                keys@ == message_keys(self.messages@).take(i as int),
                selected@ == thread_members(self.messages@, thread_id@).take(i as int),
            decreases n - i,
        {
            keys.push(self.messages[i].received_at);
            let same = str_eq(self.messages[i].thread_id.as_str(), thread_id);
            selected.push(same);
            proof {
                assert(message_keys(self.messages@).take(i + 1) == message_keys(self.messages@).take(i as int).push(self.messages@[i as int].received_at));
                assert(thread_members(self.messages@, thread_id@).take(i + 1)
                    == thread_members(self.messages@, thread_id@).take(i as int).push(self.messages@[i as int].thread_id@ == thread_id@));
            }
            i = i + 1;
        }
        proof {
            assert(message_keys(self.messages@).take(n as int) == message_keys(self.messages@));
            assert(thread_members(self.messages@, thread_id@).take(n as int)
                == thread_members(self.messages@, thread_id@));
        }
        let idx = listing_indices(&keys, &selected, false);
        let ghost iv = idx@.map_values(|i: usize| i as int);
        let mut out: Vec<MailMessage> = Vec::new();
        let mut k: usize = 0;
        while k < idx.len()
            invariant
                k <= idx@.len(),
                iv.len() == idx@.len(),
                is_listing(iv, message_keys(self.messages@), thread_members(self.messages@, thread_id@), false),
                iv == idx@.map_values(|i: usize| i as int),
                forall|j: int| 0 <= j < iv.len() ==> 0 <= #[trigger] iv[j] < self.messages@.len(),
                out@.len() == k,
                forall|j: int| 0 <= j < k ==> (#[trigger] out@[j])@ == self.messages@[iv[j]]@,
            decreases idx@.len() - k,
        {
            let j = idx[k];
            assert(iv[k as int] == j as int);
            out.push(self.messages[j].duplicate());
            k = k + 1;
        }
        assert(is_listing(
            iv,
            message_keys(self.messages_spec()),
            thread_members(self.messages_spec(), thread_id@),
            false,
        ));
        assert(forall|k: int| 0 <= k < out@.len() ==> (#[trigger] out@[k])@ == self.messages_spec()[iv[k]]@);
        Ok(out)
    }
}

/// The summary the executor gives for a thread: it is empty or missing, or
/// it has some messages and the latest is from a given sender.
pub open spec fn thread_summary(thread_id: Seq<char>, count: nat, latest_from: Option<MailAddress>) -> Seq<char> {
    match latest_from {
        None => "Thread "@ + thread_id + " not found or empty."@,
        Some(a) => "Thread "@ + thread_id + " has "@ + decimal(count) + " message(s). Latest from: "@
            + a.display(),
    }
}

/// Summarizes a thread from its messages in order.
pub fn summarize_thread(thread_id: &str, messages: &[MailMessage]) -> (r: String)
    ensures
        r@ == thread_summary(
            thread_id@,
            messages@.len(),
            if messages@.len() == 0 {
                None
            } else {
                Some(messages@.last().from)
            },
        ),
{
    let mut s = owned("Thread ");
    push_str(&mut s, thread_id);
    if messages.len() == 0 {
        push_str(&mut s, " not found or empty.");
    } else {
        push_str(&mut s, " has ");
        push_decimal(&mut s, messages.len() as u64);
        push_str(&mut s, " message(s). Latest from: ");
        let from = messages[messages.len() - 1].from.to_string();
        push_str(&mut s, from.as_str());
    }
    s
}

/// A draft reply: to the original's sender, with `Re:` before its subject.
pub fn draft_reply(original: &MailMessage, body_text: String, now: i64) -> (r: MailDraft)
    ensures
        r.reply_to == original.id,
        r.to@ == seq![original.from],
        r.subject@ == "Re: "@ + original.subject@,
        r.body_text == body_text,
        r.created_at == now,
{
    let mut subject = owned("Re: ");
    push_str(&mut subject, original.subject.as_str());
    let mut to: Vec<MailAddress> = Vec::new();
    to.push(original.from.duplicate());
    MailDraft { reply_to: original.id.duplicate(), to, subject, body_text, created_at: now }
}


/// The kinds of mail actions.
#[derive(Debug, Clone, Copy, PartialEq, Eq)]
pub enum MailActionKind {
    ListRecent,
    GetMessage,
    SummarizeThread,
    CreateDraftReply,
    Send,
}

/// The mail action an action kind names, if it names one.
pub open spec fn mail_action_kind_of(kind: Seq<char>) -> Option<MailActionKind> {
    if kind == MAIL_LIST_RECENT_ACTION_KIND@ {
        Some(MailActionKind::ListRecent)
    } else if kind == MAIL_GET_MESSAGE_ACTION_KIND@ {
        Some(MailActionKind::GetMessage)
    } else if kind == MAIL_SUMMARIZE_THREAD_ACTION_KIND@ {
        Some(MailActionKind::SummarizeThread)
    } else if kind == MAIL_CREATE_DRAFT_REPLY_ACTION_KIND@ {
        Some(MailActionKind::CreateDraftReply)
    } else if kind == MAIL_SEND_ACTION_KIND@ {
        Some(MailActionKind::Send)
    } else {
        None
    }
}

impl MailActionKind {
    /// The mail action an action kind names; other kinds are not supported.
    pub fn of(kind: &str) -> (r: Option<MailActionKind>)
        ensures
            r == mail_action_kind_of(kind@),
    {
        if str_eq(kind, MAIL_LIST_RECENT_ACTION_KIND) {
            Some(MailActionKind::ListRecent)
        } else if str_eq(kind, MAIL_GET_MESSAGE_ACTION_KIND) {
            Some(MailActionKind::GetMessage)
        } else if str_eq(kind, MAIL_SUMMARIZE_THREAD_ACTION_KIND) {
            Some(MailActionKind::SummarizeThread)
        } else if str_eq(kind, MAIL_CREATE_DRAFT_REPLY_ACTION_KIND) {
            Some(MailActionKind::CreateDraftReply)
        } else if str_eq(kind, MAIL_SEND_ACTION_KIND) {
            Some(MailActionKind::Send)
        } else {
            None
        }
    }
}

/// The input of a mail action, decoded for its kind.
#[derive(Debug, Clone, PartialEq)]
pub enum MailActionInput {
    ListRecent(MailListRecentActionInput),
    GetMessage(MailGetMessageActionInput),
    SummarizeThread(MailSummarizeThreadActionInput),
    CreateDraftReply(MailCreateDraftReplyActionInput),
    Send(MailSendActionInput),
}

/// What a completed mail action gives back.
#[derive(Debug, Clone, PartialEq)]
pub enum MailActionOutput {
    /// The listed summaries.
    Summaries(Vec<MailMessageSummary>),
    /// The message looked up, if it exists.
    Message(Option<MailMessage>),
    /// A text answer.
    Text(String),
    /// A reply draft.
    Draft(MailDraft),
    /// A send acknowledged at the executor's time.
    Sent { sent_at: i64 },
}

/// Why a mail action failed.
#[derive(Debug, Clone, PartialEq, Eq)]
pub enum MailActionError {
    /// The input did not decode for the action's kind.
    InvalidInput(String),
    /// The action could not be carried out.
    ExecutionFailed(String),
    /// The action kind is not a mail action.
    NotSupported(String),
}

/// The number of summaries listed when an input sets no limit.
pub const DEFAULT_LIST_MAX_RESULTS: usize = 20;

/// The error for a reply to a message that does not exist.
pub open spec fn message_not_found(message_id: Seq<char>) -> Seq<char> {
    "message not found: "@ + message_id
}

/// The summary of a completed action of kind `kind`.
pub open spec fn completion_summary(kind: Seq<char>) -> Seq<char> {
    kind + " completed"@
}

/// The summary of a completed action.
pub fn action_summary(kind: &str) -> (r: String)
    ensures
        r@ == completion_summary(kind@),
{
    let mut s = owned(kind);
    push_str(&mut s, " completed");
    s
}

/// Deterministic action executor for mail actions over a fake repository,
/// stamping drafts and sends with a fixed time.
#[derive(Debug, Clone)]
pub struct FakeMailExecutor {
    repository: FakeMailRepository,
    now: i64,
}

impl FakeMailExecutor {
    /// An executor over `repository` whose clock reads `now`.
    pub fn new(repository: FakeMailRepository, now: i64) -> (r: Self)
        ensures
            r.repository_spec() == repository,
            r.now_spec() == now,
    {
        FakeMailExecutor { repository, now }
    }

    /// The repository the executor reads.
    pub closed spec fn repository_spec(&self) -> FakeMailRepository {
        self.repository
    }

    /// The time the executor stamps.
    pub closed spec fn now_spec(&self) -> i64 {
        self.now
    }

    /// Carries out a mail action: lists recent summaries (20 unless a limit
    /// is given, unread only when asked), looks up a message, summarizes a
    /// thread, drafts a reply to an existing message, or acknowledges a send.
    pub fn execute(&self, input: MailActionInput) -> (r: Result<MailActionOutput, MailActionError>)
        ensures
            match input {
                MailActionInput::ListRecent(i) => r matches Ok(MailActionOutput::Summaries(v))
                    && self.repository_spec().is_recent_listing(
                    v@,
                    match i.max_results {
                        Some(m) => m,
                        None => DEFAULT_LIST_MAX_RESULTS,
                    },
                    match i.unread_only {
                        Some(u) => u,
                        None => false,
                    },
                ),
                MailActionInput::GetMessage(i) => r matches Ok(MailActionOutput::Message(o))
                    && self.repository_spec().is_message_lookup(i.message_id@, o),
                MailActionInput::SummarizeThread(i) => r matches Ok(MailActionOutput::Text(t))
                    && exists|v: Seq<MailMessage>|
                    #![trigger self.repository_spec().is_thread_listing(i.thread_id@, v)]
                    self.repository_spec().is_thread_listing(i.thread_id@, v) && t@ == thread_summary(
                        i.thread_id@,
                        v.len(),
                        if v.len() == 0 {
                            None
                        } else {
                            Some(v.last().from)
                        },
                    ),
                MailActionInput::CreateDraftReply(i) => {
                    &&& (forall|k: int|
                        0 <= k < self.repository_spec().messages_spec().len() ==> (#[trigger] self.repository_spec().messages_spec()[k]).id@
                            != i.message_id@) ==> (r matches Err(MailActionError::ExecutionFailed(m))
                        && m@ == message_not_found(i.message_id@))
                    &&& r is Ok ==> (r matches Ok(MailActionOutput::Draft(d)) && exists|o: MailMessage|
                        #![trigger self.repository_spec().is_message_lookup(i.message_id@, Some(o))]
                        self.repository_spec().is_message_lookup(i.message_id@, Some(o))
                            && d.reply_to@ == o.id@ && d.to@ == seq![o.from] && d.subject@ == "Re: "@
                            + o.subject@ && d.body_text == i.body_text && d.created_at
                            == self.now_spec())
                    &&& r is Ok || (forall|k: int|
                        0 <= k < self.repository_spec().messages_spec().len() ==> (#[trigger] self.repository_spec().messages_spec()[k]).id@
                            != i.message_id@)
                },
                MailActionInput::Send(_) => r == Ok::<MailActionOutput, MailActionError>(
                    MailActionOutput::Sent { sent_at: self.now_spec() },
                ),
            },
    {
        match input {
            MailActionInput::ListRecent(i) => {
                let max = match i.max_results {
                    Some(m) => m,
                    None => DEFAULT_LIST_MAX_RESULTS,
                };
                let unread = match i.unread_only {
                    Some(u) => u,
                    None => false,
                };
                match self.repository.list_recent(i.account_id.as_str(), max, unread) {
                    Ok(v) => Ok(MailActionOutput::Summaries(v)),
                    Err(e) => Err(MailActionError::ExecutionFailed(e.to_string())),
                }
            },
            MailActionInput::GetMessage(i) => {
                match self.repository.get_message(i.message_id.as_str()) {
                    Ok(o) => Ok(MailActionOutput::Message(o)),
                    Err(e) => Err(MailActionError::ExecutionFailed(e.to_string())),
                }
            },
            MailActionInput::SummarizeThread(i) => {
                match self.repository.get_thread_messages(i.thread_id.as_str()) {
                    Ok(v) => Ok(MailActionOutput::Text(summarize_thread(i.thread_id.as_str(), v.as_slice()))),
                    Err(e) => Err(MailActionError::ExecutionFailed(e.to_string())),
                }
            },
            MailActionInput::CreateDraftReply(i) => {
                match self.repository.get_message(i.message_id.as_str()) {
                    Ok(Some(original)) => Ok(
                        MailActionOutput::Draft(draft_reply(&original, i.body_text, self.now)),
                    ),
                    Ok(None) => {
                        let mut m = owned("message not found: ");
                        push_str(&mut m, i.message_id.as_str());
                        Err(MailActionError::ExecutionFailed(m))
                    },
                    Err(e) => Err(MailActionError::ExecutionFailed(e.to_string())),
                }
            },
            MailActionInput::Send(_) => Ok(MailActionOutput::Sent { sent_at: self.now }),
        }
    }
}

} // verus!
