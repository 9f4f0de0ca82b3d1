//! Access control for enterprise resources: roles, grants, user lifecycle,
//! organization/team/group inheritance, and a server-backed cache.
//!
//! Deny by default: access needs an explicit, active grant for an active user.
//! Times are Unix timestamps in seconds.
use crate::text::IntoText;
use vstd::prelude::*;

verus! {

/// Unique identifier for an enterprise user.
#[derive(Debug, Clone, PartialEq, Eq, Hash)]
pub struct EnterpriseUserId(pub String);

impl View for EnterpriseUserId {
    type V = Seq<char>;

    open spec fn view(&self) -> Seq<char> {
        self.0@
    }
}

impl IntoText for EnterpriseUserId {
    open spec fn text(&self) -> Seq<char> {
        self@
    }

    fn into_text(self) -> (r: String) {
        self.0
    }
}

impl EnterpriseUserId {
    /// Builds the id from text.
    pub fn from<T: IntoText>(s: T) -> (r: EnterpriseUserId)
        ensures
            r@ == s.text(),
    {
        EnterpriseUserId(s.into_text())
    }

    /// The id as it is displayed: its text.
    pub fn to_string(&self) -> (r: String)
        ensures
            r@ == self@,
    {
        self.0.clone()
    }

    /// The id as text.
    pub fn as_str(&self) -> (r: &str)
        ensures
            r@ == self@,
    {
        self.0.as_str()
    }

    /// Whether two ids hold the same text.
    pub fn same(&self, other: &EnterpriseUserId) -> (r: bool)
        ensures
            r == (self@ == other@),
    {
        self.0 == other.0
    }

    /// An equal copy of the id.
    pub fn duplicate(&self) -> (r: EnterpriseUserId)
        ensures
            r == *self,
    {
        EnterpriseUserId(self.0.clone())
    }
}

/// Lifecycle state of an enterprise user.
#[derive(Debug, Clone, Copy, PartialEq, Eq, Structural)]
pub enum EnterpriseUserLifecycle {
    Active,
    Suspended,
    Disabled,
    Offboarded,
}

impl EnterpriseUserLifecycle {
    /// The text the lifecycle is displayed as.
    pub open spec fn display(self) -> Seq<char> {
        match self {
            EnterpriseUserLifecycle::Active => "active"@,
            EnterpriseUserLifecycle::Suspended => "suspended"@,
            EnterpriseUserLifecycle::Disabled => "disabled"@,
            EnterpriseUserLifecycle::Offboarded => "offboarded"@,
        }
    }

    /// The lifecycle as it is displayed.
    pub fn to_string(&self) -> (r: String)
        ensures
            r@ == self.display(),
    {
        match self {
            EnterpriseUserLifecycle::Active => "active".to_owned(),
            EnterpriseUserLifecycle::Suspended => "suspended".to_owned(),
            EnterpriseUserLifecycle::Disabled => "disabled".to_owned(),
            EnterpriseUserLifecycle::Offboarded => "offboarded".to_owned(),
        }
    }

    /// Whether the lifecycle is `Active`.
    pub fn is_active(self) -> (r: bool)
        ensures
            r == (self == EnterpriseUserLifecycle::Active),
    {
        matches!(self, EnterpriseUserLifecycle::Active)
    }
}

/// Lifecycle status record of one user.
#[derive(Debug, Clone, PartialEq)]
pub struct EnterpriseUserStatus {
    pub user_id: EnterpriseUserId,
    pub lifecycle: EnterpriseUserLifecycle,
    pub changed_at: i64,
    pub reason: Option<String>,
}

/// Whether a user in lifecycle `from` may move to `next`: an offboarded
/// user may only stay offboarded.
pub open spec fn transition_allowed(from: EnterpriseUserLifecycle, next: EnterpriseUserLifecycle) -> bool {
    from != EnterpriseUserLifecycle::Offboarded || next == EnterpriseUserLifecycle::Offboarded
}

impl EnterpriseUserStatus {
    /// An active status with no reason.
    pub fn active(user_id: EnterpriseUserId, changed_at: i64) -> (r: EnterpriseUserStatus)
        ensures
            r.user_id == user_id,
            r.lifecycle == EnterpriseUserLifecycle::Active,
            r.changed_at == changed_at,
            r.reason is None,
    {
        EnterpriseUserStatus {
            user_id,
            lifecycle: EnterpriseUserLifecycle::Active,
            changed_at,
            reason: None,
        }
    }

    /// Whether this user may move to lifecycle `next`.
    pub fn can_transition_to(&self, next: EnterpriseUserLifecycle) -> (r: bool)
        ensures
            r == transition_allowed(self.lifecycle, next),
    {
        !matches!(self.lifecycle, EnterpriseUserLifecycle::Offboarded) || matches!(
            next,
            EnterpriseUserLifecycle::Offboarded
        )
    }
}

/// Kind of an offboarding event.
#[derive(Debug, Clone, Copy, PartialEq, Eq, Structural)]
pub enum OffboardingEventKind {
    UserRemoved,
    AccountDisabled,
    MembershipRevoked,
    AllMembershipsRevoked,
}

impl OffboardingEventKind {
    /// The text the kind is displayed as.
    pub open spec fn display(self) -> Seq<char> {
        match self {
            OffboardingEventKind::UserRemoved => "user_removed"@,
            OffboardingEventKind::AccountDisabled => "account_disabled"@,
            OffboardingEventKind::MembershipRevoked => "membership_revoked"@,
            OffboardingEventKind::AllMembershipsRevoked => "all_memberships_revoked"@,
        }
    }

    /// The kind as it is displayed.
    pub fn to_string(&self) -> (r: String)
        ensures
            r@ == self.display(),
    {
        match self {
            OffboardingEventKind::UserRemoved => "user_removed".to_owned(),
            OffboardingEventKind::AccountDisabled => "account_disabled".to_owned(),
            OffboardingEventKind::MembershipRevoked => "membership_revoked".to_owned(),
            OffboardingEventKind::AllMembershipsRevoked => "all_memberships_revoked".to_owned(),
        }
    }
}

/// An offboarding event.
#[derive(Debug, Clone, PartialEq)]
pub struct OffboardingEvent {
    pub event_id: String,
    pub user_id: EnterpriseUserId,
    pub organization_id: OrganizationId,
    pub event_kind: OffboardingEventKind,
    pub triggered_by: EnterpriseUserId,
    pub reason: Option<String>,
    pub occurred_at: i64,
}

/// An equal copy of an optional text.
pub fn duplicate_opt_string(s: &Option<String>) -> (r: Option<String>)
    ensures
        r == *s,
{
    match s {
        Some(t) => Some(t.clone()),
        None => None,
    }
}

impl OffboardingEvent {
    /// An equal copy of the event.
    pub fn duplicate(&self) -> (r: OffboardingEvent)
        ensures
            r == *self,
    {
        OffboardingEvent {
            event_id: self.event_id.clone(),
            user_id: self.user_id.duplicate(),
            organization_id: self.organization_id.duplicate(),
            event_kind: self.event_kind,
            triggered_by: self.triggered_by.duplicate(),
            reason: duplicate_opt_string(&self.reason),
            occurred_at: self.occurred_at,
        }
    }
}

/// The events of `s` recorded for user `u`, in recording order.
pub open spec fn events_of_user(s: Seq<OffboardingEvent>, u: Seq<char>) -> Seq<OffboardingEvent> {
    s.filter(|e: OffboardingEvent| e.user_id@ == u)
}

/// The events of `s` recorded for organization `o`, in recording order.
pub open spec fn events_of_org(s: Seq<OffboardingEvent>, o: Seq<char>) -> Seq<OffboardingEvent> {
    s.filter(|e: OffboardingEvent| e.organization_id@ == o)
}

/// Storage of offboarding events.
pub trait OffboardingEventStore {
    fn record(&mut self, event: OffboardingEvent);

    fn list_by_user(&self, user_id: &EnterpriseUserId) -> Vec<OffboardingEvent>;

    fn list_by_org(&self, organization_id: &OrganizationId) -> Vec<OffboardingEvent>;
}

/// In-memory offboarding event store.
#[derive(Debug, Clone)]
pub struct MemoryOffboardingEventStore {
    events: Vec<OffboardingEvent>,
}

impl View for MemoryOffboardingEventStore {
    type V = Seq<OffboardingEvent>;

    closed spec fn view(&self) -> Seq<OffboardingEvent> {
        self.events@
    }
}

impl MemoryOffboardingEventStore {
    /// An empty store.
    pub fn new() -> (r: MemoryOffboardingEventStore)
        ensures
            r@ == Seq::<OffboardingEvent>::empty(),
    {
        MemoryOffboardingEventStore { events: Vec::new() }
    }
}

impl OffboardingEventStore for MemoryOffboardingEventStore {
    fn record(&mut self, event: OffboardingEvent)
        ensures
            final(self)@ == old(self)@.push(event),
    {
        self.events.push(event);
    }

    fn list_by_user(&self, user_id: &EnterpriseUserId) -> (r: Vec<OffboardingEvent>)
        ensures
            r@ == events_of_user(self@, user_id@),
    {
        let mut r: Vec<OffboardingEvent> = Vec::new();
        let mut i: usize = 0;
        while i < self.events.len()
            invariant
                i <= self.events@.len(),
                r@ == events_of_user(self.events@.take(i as int), user_id@),
            decreases self.events@.len() - i,
        {
            let e = &self.events[i];
            proof {
                reveal(Seq::filter);
                assert(self.events@.take(i + 1).drop_last() == self.events@.take(i as int));
            }
            if e.user_id.same(user_id) {
                r.push(e.duplicate());
            }
            i = i + 1;
        }
        assert(self.events@.take(self.events@.len() as int) == self.events@);
        r
    }

    fn list_by_org(&self, organization_id: &OrganizationId) -> (r: Vec<OffboardingEvent>)
        ensures
            r@ == events_of_org(self@, organization_id@),
    {
        let mut r: Vec<OffboardingEvent> = Vec::new();
        let mut i: usize = 0;
        while i < self.events.len()
            invariant
                i <= self.events@.len(),
                r@ == events_of_org(self.events@.take(i as int), organization_id@),
            decreases self.events@.len() - i,
        {
            let e = &self.events[i];
            proof {
                reveal(Seq::filter);
                assert(self.events@.take(i + 1).drop_last() == self.events@.take(i as int));
            }
            if e.organization_id.same(organization_id) {
                r.push(e.duplicate());
            }
            i = i + 1;
        }
        assert(self.events@.take(self.events@.len() as int) == self.events@);
        r
    }
}

/// Enterprise role hierarchy, ordered `User < Admin < SuperAdmin`.
#[derive(Debug, Clone, Copy, PartialEq, Eq, PartialOrd, Ord, Structural)]
pub enum EnterpriseRole {
    User,
    Admin,
    SuperAdmin,
}

impl EnterpriseRole {
    /// The text the role is displayed as.
    pub open spec fn display(self) -> Seq<char> {
        match self {
            EnterpriseRole::User => "user"@,
            EnterpriseRole::Admin => "admin"@,
            EnterpriseRole::SuperAdmin => "super_admin"@,
        }
    }

    /// The role as it is displayed.
    pub fn to_string(&self) -> (r: String)
        ensures
            r@ == self.display(),
    {
        match self {
            EnterpriseRole::User => "user".to_owned(),
            EnterpriseRole::Admin => "admin".to_owned(),
            EnterpriseRole::SuperAdmin => "super_admin".to_owned(),
        }
    }
}

/// Types of enterprise resources that can be permission-controlled.
#[derive(Debug, Clone, Copy, PartialEq, Eq, Hash, Structural)]
pub enum ResourceType {
    Conversation,
    Action,
    KnowledgeBase,
    FileArea,
    File,
    Asset,
    SearchResult,
    AnswerCacheEvidence,
}

impl ResourceType {
    /// The text the resource type is displayed as.
    pub open spec fn display(self) -> Seq<char> {
        match self {
            ResourceType::Conversation => "conversation"@,
            ResourceType::Action => "action"@,
            ResourceType::KnowledgeBase => "knowledge_base"@,
            ResourceType::FileArea => "file_area"@,
            ResourceType::File => "file"@,
            ResourceType::Asset => "asset"@,
            ResourceType::SearchResult => "search_result"@,
            ResourceType::AnswerCacheEvidence => "answer_cache_evidence"@,
        }
    }

    /// The resource type as it is displayed.
    pub fn to_string(&self) -> (r: String)
        ensures
            r@ == self.display(),
    {
        match self {
            ResourceType::Conversation => "conversation".to_owned(),
            ResourceType::Action => "action".to_owned(),
            ResourceType::KnowledgeBase => "knowledge_base".to_owned(),
            ResourceType::FileArea => "file_area".to_owned(),
            ResourceType::File => "file".to_owned(),
            ResourceType::Asset => "asset".to_owned(),
            ResourceType::SearchResult => "search_result".to_owned(),
            ResourceType::AnswerCacheEvidence => "answer_cache_evidence".to_owned(),
        }
    }
}

/// Unique identifier for a resource.
#[derive(Debug, Clone, PartialEq, Eq, Hash)]
pub struct ResourceId(pub String);

impl View for ResourceId {
    type V = Seq<char>;

    open spec fn view(&self) -> Seq<char> {
        self.0@
    }
}

impl IntoText for ResourceId {
    open spec fn text(&self) -> Seq<char> {
        self@
    }

    fn into_text(self) -> (r: String) {
        self.0
    }
}

impl ResourceId {
    /// Builds the id from text.
    pub fn from<T: IntoText>(s: T) -> (r: ResourceId)
        ensures
            r@ == s.text(),
    {
        ResourceId(s.into_text())
    }

    /// The id as it is displayed: its text.
    pub fn to_string(&self) -> (r: String)
        ensures
            r@ == self@,
    {
        self.0.clone()
    }

    /// The id as text.
    pub fn as_str(&self) -> (r: &str)
        ensures
            r@ == self@,
    {
        self.0.as_str()
    }

    /// Whether two ids hold the same text.
    pub fn same(&self, other: &ResourceId) -> (r: bool)
        ensures
            r == (self@ == other@),
    {
        self.0 == other.0
    }

    /// An equal copy of the id.
    pub fn duplicate(&self) -> (r: ResourceId)
        ensures
            r == *self,
    {
        ResourceId(self.0.clone())
    }
}

/// Action that can be granted.
#[derive(Debug, Clone, Copy, PartialEq, Eq, Structural)]
pub enum PermissionAction {
    Read,
    Write,
    Delete,
    Admin,
}

impl PermissionAction {
    /// The text the action is displayed as.
    pub open spec fn display(self) -> Seq<char> {
        match self {
            PermissionAction::Read => "read"@,
            PermissionAction::Write => "write"@,
            PermissionAction::Delete => "delete"@,
            PermissionAction::Admin => "admin"@,
        }
    }

    /// The action as it is displayed.
    pub fn to_string(&self) -> (r: String)
        ensures
            r@ == self.display(),
    {
        match self {
            PermissionAction::Read => "read".to_owned(),
            PermissionAction::Write => "write".to_owned(),
            PermissionAction::Delete => "delete".to_owned(),
            PermissionAction::Admin => "admin".to_owned(),
        }
    }
}

/// A permission grant for a user on a resource.
#[derive(Debug, Clone, PartialEq)]
pub struct PermissionGrant {
    pub grant_id: String,
    pub user_id: EnterpriseUserId,
    pub role: EnterpriseRole,
    pub resource_type: ResourceType,
    pub resource_id: ResourceId,
    pub actions: Vec<PermissionAction>,
    pub granted_at: i64,
    pub expires_at: Option<i64>,
    pub revoked: bool,
}

/// Value of a permission grant, with its texts and actions as sequences.
pub struct PermissionGrantView {
    pub grant_id: Seq<char>,
    pub user_id: Seq<char>,
    pub role: EnterpriseRole,
    pub resource_type: ResourceType,
    pub resource_id: Seq<char>,
    pub actions: Seq<PermissionAction>,
    pub granted_at: i64,
    pub expires_at: Option<i64>,
    pub revoked: bool,
}

impl View for PermissionGrant {
    type V = PermissionGrantView;

    open spec fn view(&self) -> PermissionGrantView {
        PermissionGrantView {
            grant_id: self.grant_id@,
            user_id: self.user_id@,
            role: self.role,
            resource_type: self.resource_type,
            resource_id: self.resource_id@,
            actions: self.actions@,
            granted_at: self.granted_at,
            expires_at: self.expires_at,
            revoked: self.revoked,
        }
    }
}

/// A grant is active at `now` when it is not revoked and not yet expired.
pub open spec fn grant_active(g: PermissionGrant, now: i64) -> bool {
    !g.revoked && match g.expires_at {
        Some(e) => now < e,
        None => true,
    }
}

/// The grant `g` with its `revoked` flag set.
pub open spec fn revoked_copy(g: PermissionGrant) -> PermissionGrant {
    PermissionGrant { revoked: true, ..g }
}

impl PermissionGrant {
    /// Whether this grant is active at `now`.
    pub fn is_active(&self, now: i64) -> (r: bool)
        ensures
            r == grant_active(*self, now),
    {
        if self.revoked {
            return false;
        }
        match self.expires_at {
            Some(expires) => now < expires,
            None => true,
        }
    }

    /// Whether this grant lists `action`.
    pub fn allows(&self, action: &PermissionAction) -> (r: bool)
        ensures
            r == self.actions@.contains(*action),
    {
        let mut i: usize = 0;
        while i < self.actions.len()
            invariant
                i <= self.actions@.len(),
                forall|k: int| 0 <= k < i ==> self.actions@[k] != *action,
            decreases self.actions@.len() - i,
        {
            if self.actions[i] == *action {
                assert(self.actions@[i as int] == *action);
                return true;
            }
            i = i + 1;
        }
        false
    }

    /// A copy of the grant with the same value.
    pub fn duplicate(&self) -> (r: PermissionGrant)
        ensures
            r@ == self@,
    {
        let mut actions: Vec<PermissionAction> = Vec::new();
        let mut i: usize = 0;
        while i < self.actions.len()
            invariant
                i <= self.actions@.len(),
                actions@ == self.actions@.take(i as int),
            decreases self.actions@.len() - i,
        {
            actions.push(self.actions[i]);
            i = i + 1;
        }
        assert(actions@ =~= self.actions@);
        PermissionGrant {
            grant_id: self.grant_id.clone(),
            user_id: self.user_id.duplicate(),
            role: self.role,
            resource_type: self.resource_type,
            resource_id: self.resource_id.duplicate(),
            actions,
            granted_at: self.granted_at,
            expires_at: self.expires_at,
            revoked: self.revoked,
        }
    }
}

/// Result of a permission check.
#[derive(Debug, Clone, Copy, PartialEq, Eq, Structural)]
pub enum PermissionDecision {
    Allow,
    Deny,
}

impl PermissionDecision {
    /// The text the decision is displayed as.
    pub open spec fn display(self) -> Seq<char> {
        match self {
            PermissionDecision::Allow => "allow"@,
            PermissionDecision::Deny => "deny"@,
        }
    }

    /// The decision as it is displayed.
    pub fn to_string(&self) -> (r: String)
        ensures
            r@ == self.display(),
    {
        match self {
            PermissionDecision::Allow => "allow".to_owned(),
            PermissionDecision::Deny => "deny".to_owned(),
        }
    }

    /// Whether the decision is `Allow`.
    pub fn is_allowed(&self) -> (r: bool)
        ensures
            r == (*self == PermissionDecision::Allow),
    {
        matches!(self, PermissionDecision::Allow)
    }
}

/// Policy for an enterprise asset.
#[derive(Debug, Clone, PartialEq)]
pub struct EnterpriseAssetPolicy {
    pub resource_type: ResourceType,
    pub resource_id: ResourceId,
    pub default_decision: PermissionDecision,
    pub require_explicit_grant: bool,
}

impl EnterpriseAssetPolicy {
    /// A policy that denies by default and requires an explicit grant.
    pub fn deny_by_default(resource_type: ResourceType, resource_id: ResourceId) -> (r:
        EnterpriseAssetPolicy)
        ensures
            r.resource_type == resource_type,
            r.resource_id == resource_id,
            r.default_decision == PermissionDecision::Deny,
            r.require_explicit_grant,
    {
        EnterpriseAssetPolicy {
            resource_type,
            resource_id,
            default_decision: PermissionDecision::Deny,
            require_explicit_grant: true,
        }
    }

    /// A policy that allows by default (for public resources).
    pub fn allow_by_default(resource_type: ResourceType, resource_id: ResourceId) -> (r:
        EnterpriseAssetPolicy)
        ensures
            r.resource_type == resource_type,
            r.resource_id == resource_id,
            r.default_decision == PermissionDecision::Allow,
            !r.require_explicit_grant,
    {
        EnterpriseAssetPolicy {
            resource_type,
            resource_id,
            default_decision: PermissionDecision::Allow,
            require_explicit_grant: false,
        }
    }
}

/// No two status records in `s` are about the same user.
pub open spec fn unique_status_users(s: Seq<EnterpriseUserStatus>) -> bool {
    forall|i: int, j: int|
        0 <= i < s.len() && 0 <= j < s.len() && i != j ==> (#[trigger] s[i]).user_id@ != (
        #[trigger] s[j]).user_id@
}

/// Whether `s` holds a status record for user `u`.
pub open spec fn has_status(s: Seq<EnterpriseUserStatus>, u: Seq<char>) -> bool {
    exists|i: int| 0 <= i < s.len() && (#[trigger] s[i]).user_id@ == u
}

/// The lifecycle recorded for user `u`; `Active` when none is recorded.
pub open spec fn lifecycle_of(s: Seq<EnterpriseUserStatus>, u: Seq<char>) -> EnterpriseUserLifecycle {
    if has_status(s, u) {
        s[choose|i: int| 0 <= i < s.len() && (#[trigger] s[i]).user_id@ == u].lifecycle
    } else {
        EnterpriseUserLifecycle::Active
    }
}

/// With unique users, the record at any index for `u` gives `u`'s lifecycle.
pub proof fn lemma_lifecycle_at(s: Seq<EnterpriseUserStatus>, u: Seq<char>, i: int)
    requires
        unique_status_users(s),
        0 <= i < s.len(),
        s[i].user_id@ == u,
    ensures
        lifecycle_of(s, u) == s[i].lifecycle,
{
    assert(has_status(s, u));
    let k = choose|k: int| 0 <= k < s.len() && (#[trigger] s[k]).user_id@ == u;
    assert(k == i);
}

/// Whether grant `g` lets user `u` perform `action` on `(rt, rid)` at `now`.
pub open spec fn grant_matches(
    g: PermissionGrant,
    u: Seq<char>,
    rt: ResourceType,
    rid: Seq<char>,
    action: PermissionAction,
    now: i64,
) -> bool {
    &&& g.user_id@ == u
    &&& g.resource_type == rt
    &&& g.resource_id@ == rid
    &&& grant_active(g, now)
    &&& g.actions@.contains(action)
}

/// Whether some grant in `grants` matches.
pub open spec fn some_grant_matches(
    grants: Seq<PermissionGrant>,
    u: Seq<char>,
    rt: ResourceType,
    rid: Seq<char>,
    action: PermissionAction,
    now: i64,
) -> bool {
    exists|i: int| 0 <= i < grants.len() && grant_matches(#[trigger] grants[i], u, rt, rid, action, now)
}

/// The decision of a grant check: allow exactly when the user is active and
/// some active grant for the user lists the action on the resource.
pub open spec fn check_decision(
    grants: Seq<PermissionGrant>,
    statuses: Seq<EnterpriseUserStatus>,
    u: Seq<char>,
    rt: ResourceType,
    rid: Seq<char>,
    action: PermissionAction,
    now: i64,
) -> PermissionDecision {
    if lifecycle_of(statuses, u) == EnterpriseUserLifecycle::Active && some_grant_matches(
        grants,
        u,
        rt,
        rid,
        action,
        now,
    ) {
        PermissionDecision::Allow
    } else {
        PermissionDecision::Deny
    }
}

/// The decision of a role-aware check: inactive users are denied; an active
/// SuperAdmin is allowed; an active Admin may read; otherwise grants decide.
pub open spec fn role_decision(
    grants: Seq<PermissionGrant>,
    statuses: Seq<EnterpriseUserStatus>,
    u: Seq<char>,
    role: EnterpriseRole,
    rt: ResourceType,
    rid: Seq<char>,
    action: PermissionAction,
    now: i64,
) -> PermissionDecision {
    if lifecycle_of(statuses, u) != EnterpriseUserLifecycle::Active {
        PermissionDecision::Deny
    } else if role == EnterpriseRole::SuperAdmin {
        PermissionDecision::Allow
    } else if role == EnterpriseRole::Admin && action == PermissionAction::Read {
        PermissionDecision::Allow
    } else {
        check_decision(grants, statuses, u, rt, rid, action, now)
    }
}

/// The grants of `s` that belong to user `u`, in order.
pub open spec fn grants_of_user(s: Seq<PermissionGrant>, u: Seq<char>) -> Seq<PermissionGrant> {
    s.filter(|g: PermissionGrant| g.user_id@ == u)
}

/// `s` with every grant of user `u` revoked.
pub open spec fn revoke_user_grants(s: Seq<PermissionGrant>, u: Seq<char>) -> Seq<PermissionGrant> {
    Seq::new(s.len(), |i: int| if s[i].user_id@ == u { revoked_copy(s[i]) } else { s[i] })
}

/// Number of grants of `u` in `s` that are not yet revoked.
pub open spec fn unrevoked_count(s: Seq<PermissionGrant>, u: Seq<char>) -> nat
    decreases s.len(),
{
    if s.len() == 0 {
        0
    } else {
        unrevoked_count(s.drop_last(), u) + if s.last().user_id@ == u && !s.last().revoked {
            1nat
        } else {
            0nat
        }
    }
}

/// Index of the first grant in `s` with id `id`, if any.
pub open spec fn first_grant_with_id(s: Seq<PermissionGrant>, id: Seq<char>, i: int) -> bool {
    0 <= i < s.len() && s[i].grant_id@ == id && forall|k: int| 0 <= k < i ==> (#[trigger] s[k]).grant_id@ != id
}

/// Snapshot of a permission store: its grants and its lifecycle records.
pub struct PermissionStoreView {
    pub grants: Seq<PermissionGrant>,
    pub statuses: Seq<EnterpriseUserStatus>,
}

/// In-memory store for permission grants and user lifecycles.
#[derive(Debug, Clone)]
pub struct PermissionStore {
    grants: Vec<PermissionGrant>,
    user_lifecycles: Vec<EnterpriseUserStatus>,
}

impl View for PermissionStore {
    type V = PermissionStoreView;

    closed spec fn view(&self) -> PermissionStoreView {
        PermissionStoreView { grants: self.grants@, statuses: self.user_lifecycles@ }
    }
}

impl PermissionStore {
    /// The store's invariant: at most one lifecycle record per user.
    pub open spec fn wf(&self) -> bool {
        unique_status_users(self@.statuses)
    }

    /// An empty store.
    pub fn new() -> (r: PermissionStore)
        ensures
            r.wf(),
            r@.grants.len() == 0,
            r@.statuses.len() == 0,
    {
        PermissionStore { grants: Vec::new(), user_lifecycles: Vec::new() }
    }

    /// Adds a grant.
    pub fn add_grant(&mut self, grant: PermissionGrant)
        requires
            old(self).wf(),
        ensures
            final(self).wf(),
            final(self)@.grants == old(self)@.grants.push(grant),
            final(self)@.statuses == old(self)@.statuses,
    {
        self.grants.push(grant);
    }

    fn set_revoked(&mut self, i: usize)
        requires
            i < old(self)@.grants.len(),
        ensures
            final(self)@.grants == old(self)@.grants.update(i as int, revoked_copy(old(self)@.grants[i as int])),
            final(self)@.statuses == old(self)@.statuses,
    {
        let mut g = self.grants.remove(i);
        g.revoked = true;
        self.grants.insert(i, g);
        assert(self.grants@ =~= old(self).grants@.update(i as int, revoked_copy(old(self).grants@[i as int])));
    }

    /// Revokes the first grant with id `grant_id`; returns whether one exists.
    pub fn revoke_grant(&mut self, grant_id: &str) -> (r: bool)
        requires
            old(self).wf(),
        ensures
            final(self).wf(),
            final(self)@.statuses == old(self)@.statuses,
            r == exists|i: int| 0 <= i < old(self)@.grants.len() && (#[trigger] old(self)@.grants[i]).grant_id@ == grant_id@,
            r ==> exists|i: int| first_grant_with_id(old(self)@.grants, grant_id@, i)
                && final(self)@.grants == old(self)@.grants.update(i, revoked_copy(old(self)@.grants[i])),
            !r ==> final(self)@.grants == old(self)@.grants,
    {
        let mut i: usize = 0;
        while i < self.grants.len()
            invariant
                i <= self.grants@.len(),
                forall|k: int| 0 <= k < i ==> (#[trigger] self.grants@[k]).grant_id@ != grant_id@,
                self.grants@ == old(self).grants@,
                self.user_lifecycles@ == old(self).user_lifecycles@,
                unique_status_users(self.user_lifecycles@),
            decreases self.grants@.len() - i,
        {
            if crate::text::str_eq(self.grants[i].grant_id.as_str(), grant_id) {
                proof {
                    assert(first_grant_with_id(self.grants@, grant_id@, i as int));
                }
                self.set_revoked(i);
                return true;
            }
            i = i + 1;
        }
        false
    }

    /// Revokes every grant of the user; returns how many were not yet revoked.
    pub fn revoke_all_grants_for_user(&mut self, user_id: &EnterpriseUserId) -> (r: usize)
        requires
            old(self).wf(),
        ensures
            final(self).wf(),
            final(self)@.statuses == old(self)@.statuses,
            final(self)@.grants == revoke_user_grants(old(self)@.grants, user_id@),
            r == unrevoked_count(old(self)@.grants, user_id@),
    {
        let ghost orig = self.grants@;
        let mut count: usize = 0;
        let mut i: usize = 0;
        while i < self.grants.len()
            invariant
                self.grants@.len() == orig.len(),
                i <= orig.len(),
                self.user_lifecycles@ == old(self).user_lifecycles@,
                forall|k: int| 0 <= k < i ==> #[trigger] self.grants@[k] == (if orig[k].user_id@ == user_id@ { revoked_copy(orig[k]) } else { orig[k] }),
                forall|k: int| i <= k < orig.len() ==> #[trigger] self.grants@[k] == orig[k],
                count == unrevoked_count(orig.take(i as int), user_id@),
                count <= i,
            decreases orig.len() - i,
        {
            proof {
                assert(orig.take(i + 1).drop_last() == orig.take(i as int));
            }
            if self.grants[i].user_id.same(user_id) && !self.grants[i].revoked {
                self.set_revoked(i);
                count = count + 1;
            } else if self.grants[i].user_id.same(user_id) {
                assert(self.grants@[i as int] == revoked_copy(orig[i as int]));
            }
            i = i + 1;
        }
        assert(orig.take(orig.len() as int) == orig);
        assert(self.grants@ =~= revoke_user_grants(orig, user_id@));
        count
    }

    fn status_position(&self, user_id: &EnterpriseUserId) -> (r: Option<usize>)
        ensures
            match r {
                Some(i) => i < self@.statuses.len() && self@.statuses[i as int].user_id@ == user_id@,
                None => !has_status(self@.statuses, user_id@),
            },
    {
        let mut i: usize = 0;
        while i < self.user_lifecycles.len()
            invariant
                i <= self.user_lifecycles@.len(),
                forall|k: int| 0 <= k < i ==> (#[trigger] self.user_lifecycles@[k]).user_id@ != user_id@,
            decreases self.user_lifecycles@.len() - i,
        {
            if self.user_lifecycles[i].user_id.same(user_id) {
                return Some(i);
            }
            i = i + 1;
        }
        None
    }

    /// Records a lifecycle change; an offboarded user cannot leave `Offboarded`
    /// (the change is refused and `false` returned).
    pub fn set_user_lifecycle(&mut self, status: EnterpriseUserStatus) -> (r: bool)
        requires
            old(self).wf(),
        ensures
            final(self).wf(),
            final(self)@.grants == old(self)@.grants,
            r == transition_allowed(lifecycle_of(old(self)@.statuses, status.user_id@), status.lifecycle)
                || !has_status(old(self)@.statuses, status.user_id@),
            r ==> lifecycle_of(final(self)@.statuses, status.user_id@) == status.lifecycle,
            !r ==> final(self)@.statuses == old(self)@.statuses,
            forall|u: Seq<char>| u != status.user_id@ ==> lifecycle_of(final(self)@.statuses, u) == lifecycle_of(old(self)@.statuses, u),
    {
        let ghost orig = self.user_lifecycles@;
        let ghost uid = status.user_id@;
        match self.status_position(&status.user_id) {
            Some(i) => {
                proof {
                    lemma_lifecycle_at(orig, uid, i as int);
                }
                if !self.user_lifecycles[i].can_transition_to(status.lifecycle) {
                    return false;
                }
                let lc = status.lifecycle;
                self.user_lifecycles.remove(i);
                self.user_lifecycles.insert(i, status);
                proof {
                    let s = self.user_lifecycles@;
                    assert(s =~= orig.update(i as int, s[i as int]));
                    assert(unique_status_users(s)) by {
                        assert forall|a: int, b: int| 0 <= a < s.len() && 0 <= b < s.len() && a != b implies (#[trigger] s[a]).user_id@ != (#[trigger] s[b]).user_id@ by {
                            if a != i && b != i {
                                assert(orig[a] == s[a] && orig[b] == s[b]);
                            } else if a == i {
                                assert(orig[b] == s[b]);
                                assert(orig[i as int].user_id@ == uid);
                            } else {
                                assert(orig[a] == s[a]);
                            }
                        }
                    }
                    lemma_lifecycle_at(s, uid, i as int);
                    assert forall|u: Seq<char>| u != uid implies lifecycle_of(s, u) == lifecycle_of(orig, u) by {
                        if has_status(orig, u) {
                            let k = choose|k: int| 0 <= k < orig.len() && (#[trigger] orig[k]).user_id@ == u;
                            lemma_lifecycle_at(orig, u, k);
                            assert(k != i);
                            assert(s[k] == orig[k]);
                            lemma_lifecycle_at(s, u, k);
                        } else {
                            assert(!has_status(s, u)) by {
                                if has_status(s, u) {
                                    let k = choose|k: int| 0 <= k < s.len() && (#[trigger] s[k]).user_id@ == u;
                                    assert(k != i);
                                    assert(orig[k] == s[k]);
                                }
                            }
                        }
                    }
                }
                true
            },
            None => {
                self.user_lifecycles.push(status);
                proof {
                    let s = self.user_lifecycles@;
                    let n = orig.len() as int;
                    assert(s =~= orig.push(s[n]));
                    assert(unique_status_users(s)) by {
                        assert forall|a: int, b: int| 0 <= a < s.len() && 0 <= b < s.len() && a != b implies (#[trigger] s[a]).user_id@ != (#[trigger] s[b]).user_id@ by {
                            if a < n && b < n {
                                assert(orig[a] == s[a] && orig[b] == s[b]);
                            } else if a == n {
                                assert(orig[b] == s[b]);
                                assert(!has_status(orig, uid));
                            } else {
                                assert(orig[a] == s[a]);
                                assert(!has_status(orig, uid));
                            }
                        }
                    }
                    lemma_lifecycle_at(s, uid, n);
                    assert forall|u: Seq<char>| u != uid implies lifecycle_of(s, u) == lifecycle_of(orig, u) by {
                        if has_status(orig, u) {
                            let k = choose|k: int| 0 <= k < orig.len() && (#[trigger] orig[k]).user_id@ == u;
                            lemma_lifecycle_at(orig, u, k);
                            assert(s[k] == orig[k]);
                            lemma_lifecycle_at(s, u, k);
                        } else {
                            assert(!has_status(s, u)) by {
                                if has_status(s, u) {
                                    let k = choose|k: int| 0 <= k < s.len() && (#[trigger] s[k]).user_id@ == u;
                                    assert(k != n);
                                    assert(orig[k] == s[k]);
                                }
                            }
                        }
                    }
                }
                true
            },
        }
    }

    /// The user's recorded lifecycle, `Active` when none is recorded.
    pub fn get_user_lifecycle(&self, user_id: &EnterpriseUserId) -> (r: EnterpriseUserLifecycle)
        requires
            self.wf(),
        ensures
            r == lifecycle_of(self@.statuses, user_id@),
    {
        match self.status_position(user_id) {
            Some(i) => {
                proof {
                    lemma_lifecycle_at(self@.statuses, user_id@, i as int);
                }
                self.user_lifecycles[i].lifecycle
            },
            None => EnterpriseUserLifecycle::Active,
        }
    }

    /// Whether the user's lifecycle is `Active`.
    pub fn is_user_active(&self, user_id: &EnterpriseUserId) -> (r: bool)
        requires
            self.wf(),
        ensures
            r == (lifecycle_of(self@.statuses, user_id@) == EnterpriseUserLifecycle::Active),
    {
        self.get_user_lifecycle(user_id).is_active()
    }

    /// Checks a permission: allowed exactly when the user is active and some
    /// active grant of the user lists the action on the resource.
    pub fn check(
        &self,
        user_id: &EnterpriseUserId,
        resource_type: &ResourceType,
        resource_id: &ResourceId,
        action: &PermissionAction,
        now: i64,
    ) -> (r: PermissionDecision)
        requires
            self.wf(),
        ensures
            r == check_decision(self@.grants, self@.statuses, user_id@, *resource_type, resource_id@, *action, now),
    {
        if !self.is_user_active(user_id) {
            return PermissionDecision::Deny;
        }
        let mut i: usize = 0;
        while i < self.grants.len()
            invariant
                i <= self.grants@.len(),
                forall|k: int| 0 <= k < i ==> !grant_matches(#[trigger] self.grants@[k], user_id@, *resource_type, resource_id@, *action, now),
                lifecycle_of(self@.statuses, user_id@) == EnterpriseUserLifecycle::Active,
            decreases self.grants@.len() - i,
        {
            let g = &self.grants[i];
            if g.user_id.same(user_id) && g.resource_type == *resource_type && g.resource_id.same(resource_id)
                && g.is_active(now) && g.allows(action) {
                assert(grant_matches(self.grants@[i as int], user_id@, *resource_type, resource_id@, *action, now));
                return PermissionDecision::Allow;
            }
            i = i + 1;
        }
        PermissionDecision::Deny
    }

    /// Checks a permission with role escalation: SuperAdmin bypasses grants,
    /// Admin may read anything; inactive users are always denied.
    pub fn check_with_role(
        &self,
        user_id: &EnterpriseUserId,
        role: EnterpriseRole,
        resource_type: &ResourceType,
        resource_id: &ResourceId,
        action: &PermissionAction,
        now: i64,
    ) -> (r: PermissionDecision)
        requires
            self.wf(),
        ensures
            r == role_decision(self@.grants, self@.statuses, user_id@, role, *resource_type, resource_id@, *action, now),
    {
        if !self.is_user_active(user_id) {
            return PermissionDecision::Deny;
        }
        if role == EnterpriseRole::SuperAdmin {
            return PermissionDecision::Allow;
        }
        if role == EnterpriseRole::Admin && *action == PermissionAction::Read {
            return PermissionDecision::Allow;
        }
        self.check(user_id, resource_type, resource_id, action, now)
    }

    /// All grants, in the order they were added.
    pub fn grants(&self) -> (r: &[PermissionGrant])
        ensures
            r@ == self@.grants,
    {
        self.grants.as_slice()
    }

    /// All grants of the user, in the order they were added.
    pub fn get_grants_for_user(&self, user_id: &EnterpriseUserId) -> (r: Vec<&PermissionGrant>)
        ensures
            r@.len() == grants_of_user(self@.grants, user_id@).len(),
            forall|k: int| 0 <= k < r@.len() ==> *r@[k] == grants_of_user(self@.grants, user_id@)[k],
    {
        let mut r: Vec<&PermissionGrant> = Vec::new();
        let mut i: usize = 0;
        while i < self.grants.len()
            invariant
                i <= self.grants@.len(),
                r@.len() == grants_of_user(self.grants@.take(i as int), user_id@).len(),
                forall|k: int| 0 <= k < r@.len() ==> *r@[k] == grants_of_user(self.grants@.take(i as int), user_id@)[k],
            decreases self.grants@.len() - i,
        {
            proof {
                reveal(Seq::filter);
                assert(self.grants@.take(i + 1).drop_last() == self.grants@.take(i as int));
            }
            if self.grants[i].user_id.same(user_id) {
                r.push(&self.grants[i]);
            }
            i = i + 1;
        }
        assert(self.grants@.take(self.grants@.len() as int) == self.grants@);
        r
    }
}

/// Errors of permission operations.
#[derive(Debug, Clone, PartialEq, Eq)]
pub enum PermissionError {
    GrantNotFound(String),
    AccessDenied { user: String, action: String, resource_type: String, resource_id: String },
}

/// Unique identifier for an organization.
#[derive(Debug, Clone, PartialEq, Eq, Hash)]
pub struct OrganizationId(pub String);

impl View for OrganizationId {
    type V = Seq<char>;

    open spec fn view(&self) -> Seq<char> {
        self.0@
    }
}

impl IntoText for OrganizationId {
    open spec fn text(&self) -> Seq<char> {
        self@
    }

    fn into_text(self) -> (r: String) {
        self.0
    }
}

impl OrganizationId {
    /// Builds the id from text.
    pub fn from<T: IntoText>(s: T) -> (r: OrganizationId)
        ensures
            r@ == s.text(),
    {
        OrganizationId(s.into_text())
    }

    /// The id as it is displayed: its text.
    pub fn to_string(&self) -> (r: String)
        ensures
            r@ == self@,
    {
        self.0.clone()
    }

    /// The id as text.
    pub fn as_str(&self) -> (r: &str)
        ensures
            r@ == self@,
    {
        self.0.as_str()
    }

    /// Whether two ids hold the same text.
    pub fn same(&self, other: &OrganizationId) -> (r: bool)
        ensures
            r == (self@ == other@),
    {
        self.0 == other.0
    }

    /// An equal copy of the id.
    pub fn duplicate(&self) -> (r: OrganizationId)
        ensures
            r == *self,
    {
        OrganizationId(self.0.clone())
    }
}
/// Unique identifier for a team.
#[derive(Debug, Clone, PartialEq, Eq, Hash)]
pub struct TeamId(pub String);

impl View for TeamId {
    type V = Seq<char>;

    open spec fn view(&self) -> Seq<char> {
        self.0@
    }
}

impl IntoText for TeamId {
    open spec fn text(&self) -> Seq<char> {
        self@
    }

    fn into_text(self) -> (r: String) {
        self.0
    }
}

impl TeamId {
    /// Builds the id from text.
    pub fn from<T: IntoText>(s: T) -> (r: TeamId)
        ensures
            r@ == s.text(),
    {
        TeamId(s.into_text())
    }

    /// The id as it is displayed: its text.
    pub fn to_string(&self) -> (r: String)
        ensures
            r@ == self@,
    {
        self.0.clone()
    }

    /// The id as text.
    pub fn as_str(&self) -> (r: &str)
        ensures
            r@ == self@,
    {
        self.0.as_str()
    }

    /// Whether two ids hold the same text.
    pub fn same(&self, other: &TeamId) -> (r: bool)
        ensures
            r == (self@ == other@),
    {
        self.0 == other.0
    }

    /// An equal copy of the id.
    pub fn duplicate(&self) -> (r: TeamId)
        ensures
            r == *self,
    {
        TeamId(self.0.clone())
    }
}
/// Unique identifier for a group.
#[derive(Debug, Clone, PartialEq, Eq, Hash)]
pub struct GroupId(pub String);

impl View for GroupId {
    type V = Seq<char>;

    open spec fn view(&self) -> Seq<char> {
        self.0@
    }
}

impl IntoText for GroupId {
    open spec fn text(&self) -> Seq<char> {
        self@
    }

    fn into_text(self) -> (r: String) {
        self.0
    }
}

impl GroupId {
    /// Builds the id from text.
    pub fn from<T: IntoText>(s: T) -> (r: GroupId)
        ensures
            r@ == s.text(),
    {
        GroupId(s.into_text())
    }

    /// The id as it is displayed: its text.
    pub fn to_string(&self) -> (r: String)
        ensures
            r@ == self@,
    {
        self.0.clone()
    }

    /// The id as text.
    pub fn as_str(&self) -> (r: &str)
        ensures
            r@ == self@,
    {
        self.0.as_str()
    }

    /// Whether two ids hold the same text.
    pub fn same(&self, other: &GroupId) -> (r: bool)
        ensures
            r == (self@ == other@),
    {
        self.0 == other.0
    }

    /// An equal copy of the id.
    pub fn duplicate(&self) -> (r: GroupId)
        ensures
            r == *self,
    {
        GroupId(self.0.clone())
    }
}


/// After all of a user's grants are revoked, no grant check lets the user
/// do anything.
pub proof fn law_revoked_user_denied(
    grants: Seq<PermissionGrant>,
    statuses: Seq<EnterpriseUserStatus>,
    u: Seq<char>,
    rt: ResourceType,
    rid: Seq<char>,
    action: PermissionAction,
    now: i64,
)
    ensures
        check_decision(revoke_user_grants(grants, u), statuses, u, rt, rid, action, now)
            == PermissionDecision::Deny,
{
    let revoked = revoke_user_grants(grants, u);
    assert forall|i: int| 0 <= i < revoked.len() implies !grant_matches(
        #[trigger] revoked[i],
        u,
        rt,
        rid,
        action,
        now,
    ) by {
        if revoked[i].user_id@ == u {
            assert(grants[i].user_id@ == u);
            assert(revoked[i].revoked);
        }
    }
}

/// A user who is not active is denied by the grant check and by the
/// role-aware check, whatever the grants and the role.
pub proof fn law_inactive_user_denied(
    grants: Seq<PermissionGrant>,
    statuses: Seq<EnterpriseUserStatus>,
    u: Seq<char>,
    role: EnterpriseRole,
    rt: ResourceType,
    rid: Seq<char>,
    action: PermissionAction,
    now: i64,
)
    requires
        lifecycle_of(statuses, u) != EnterpriseUserLifecycle::Active,
    ensures
        check_decision(grants, statuses, u, rt, rid, action, now) == PermissionDecision::Deny,
        role_decision(grants, statuses, u, role, rt, rid, action, now) == PermissionDecision::Deny,
{
}

/// Offboarding is final: the only lifecycle an offboarded user may move to
/// is `Offboarded`.
pub proof fn law_offboarded_is_terminal(next: EnterpriseUserLifecycle)
    ensures
        transition_allowed(EnterpriseUserLifecycle::Offboarded, next) ==> next
            == EnterpriseUserLifecycle::Offboarded,
{
}

/// An active SuperAdmin is allowed everything; an active Admin may read
/// anything.
pub proof fn law_admin_escalation(
    grants: Seq<PermissionGrant>,
    statuses: Seq<EnterpriseUserStatus>,
    u: Seq<char>,
    rt: ResourceType,
    rid: Seq<char>,
    action: PermissionAction,
    now: i64,
)
    requires
        lifecycle_of(statuses, u) == EnterpriseUserLifecycle::Active,
    ensures
        role_decision(grants, statuses, u, EnterpriseRole::SuperAdmin, rt, rid, action, now)
            == PermissionDecision::Allow,
        role_decision(grants, statuses, u, EnterpriseRole::Admin, rt, rid, PermissionAction::Read, now)
            == PermissionDecision::Allow,
{
}

/// Roles only add permissions: whatever the grant check allows, the
/// role-aware check allows for every role.
pub proof fn law_grant_allow_implies_role_allow(
    grants: Seq<PermissionGrant>,
    statuses: Seq<EnterpriseUserStatus>,
    u: Seq<char>,
    role: EnterpriseRole,
    rt: ResourceType,
    rid: Seq<char>,
    action: PermissionAction,
    now: i64,
)
    requires
        check_decision(grants, statuses, u, rt, rid, action, now) == PermissionDecision::Allow,
    ensures
        role_decision(grants, statuses, u, role, rt, rid, action, now) == PermissionDecision::Allow,
{
}

} // verus!
