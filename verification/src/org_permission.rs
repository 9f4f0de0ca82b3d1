//! Organization, team and group memberships, the grants they pass on to
//! their members, and the permission check that takes inheritance into
//! account. Times are Unix seconds.
use crate::permission::{
    grant_active, lifecycle_of, EnterpriseRole, EnterpriseUserId, EnterpriseUserLifecycle,
    EnterpriseUserStatus, GroupId, OrganizationId, PermissionAction, PermissionDecision,
    PermissionGrant, PermissionGrantView, PermissionStore, PermissionStoreView, ResourceId,
    ResourceType, TeamId, unique_status_users,
};
use crate::text::{owned, push_str};
use vstd::prelude::*;

verus! {

/// Membership type.
#[derive(Debug, Clone, Copy, PartialEq, Eq, Hash, Structural)]
pub enum MembershipType {
    /// Member of an organization.
    Organization,
    /// Member of a team.
    Team,
    /// Member of a group.
    Group,
}

impl MembershipType {
    /// The displayed name.
    pub open spec fn display(self) -> Seq<char> {
        match self {
            MembershipType::Organization => "organization"@,
            MembershipType::Team => "team"@,
            MembershipType::Group => "group"@,
        }
    }

    /// The displayed name.
    pub fn to_string(&self) -> (r: String)
        ensures
            r@ == self.display(),
    {
        match self {
            MembershipType::Organization => owned("organization"),
            MembershipType::Team => owned("team"),
            MembershipType::Group => owned("group"),
        }
    }
}

/// A membership record.
#[derive(Debug, Clone, PartialEq)]
pub struct Membership {
    pub membership_id: String,
    pub user_id: EnterpriseUserId,
    pub membership_type: MembershipType,
    pub org_id: Option<OrganizationId>,
    pub team_id: Option<TeamId>,
    pub group_id: Option<GroupId>,
    pub role: EnterpriseRole,
    pub joined_at: i64,
    pub expires_at: Option<i64>,
}

/// A membership is active at `now` when it has not expired.
pub open spec fn membership_active(m: Membership, now: i64) -> bool {
    match m.expires_at {
        Some(e) => now < e,
        None => true,
    }
}

impl Membership {
    /// An equal copy of the membership.
    pub fn duplicate(&self) -> (r: Membership)
        ensures
            r == *self,
    {
        Membership {
            membership_id: self.membership_id.clone(),
            user_id: self.user_id.duplicate(),
            membership_type: self.membership_type,
            org_id: match &self.org_id {
                Some(i) => Some(i.duplicate()),
                None => None,
            },
            team_id: match &self.team_id {
                Some(i) => Some(i.duplicate()),
                None => None,
            },
            group_id: match &self.group_id {
                Some(i) => Some(i.duplicate()),
                None => None,
            },
            role: self.role,
            joined_at: self.joined_at,
            expires_at: self.expires_at,
        }
    }

    /// Whether the membership is active at `now`.
    pub fn is_active(&self, now: i64) -> (r: bool)
        ensures
            r == membership_active(*self, now),
    {
        match self.expires_at {
            Some(e) => now < e,
            None => true,
        }
    }
}

/// Where a grant a user holds comes from, with ids as text.
pub enum SourceView {
    Direct,
    Organization(Seq<char>),
    Team(Seq<char>),
    Group(Seq<char>),
}

/// Source of inherited permission.
#[derive(Debug, Clone, PartialEq)]
pub enum InheritanceSource {
    /// Direct grant to user.
    Direct,
    /// Inherited from organization.
    Organization(OrganizationId),
    /// Inherited from team.
    Team(TeamId),
    /// Inherited from group.
    Group(GroupId),
}

impl View for InheritanceSource {
    type V = SourceView;

    open spec fn view(&self) -> SourceView {
        match *self {
            InheritanceSource::Direct => SourceView::Direct,
            InheritanceSource::Organization(id) => SourceView::Organization(id@),
            InheritanceSource::Team(id) => SourceView::Team(id@),
            InheritanceSource::Group(id) => SourceView::Group(id@),
        }
    }
}

impl InheritanceSource {
    /// The displayed source: `direct`, or the kind and id.
    pub open spec fn display(self) -> Seq<char> {
        match self@ {
            SourceView::Direct => "direct"@,
            SourceView::Organization(id) => "org:"@ + id,
            SourceView::Team(id) => "team:"@ + id,
            SourceView::Group(id) => "group:"@ + id,
        }
    }

    /// The displayed source.
    pub fn to_string(&self) -> (r: String)
        ensures
            r@ == self.display(),
    {
        match self {
            InheritanceSource::Direct => owned("direct"),
            InheritanceSource::Organization(id) => {
                let mut s = owned("org:");
                push_str(&mut s, id.as_str());
                s
            },
            InheritanceSource::Team(id) => {
                let mut s = owned("team:");
                push_str(&mut s, id.as_str());
                s
            },
            InheritanceSource::Group(id) => {
                let mut s = owned("group:");
                push_str(&mut s, id.as_str());
                s
            },
        }
    }
}

/// A grant a user holds and where it comes from.
#[derive(Debug, Clone, PartialEq)]
pub struct InheritedGrant {
    pub grant: PermissionGrant,
    pub inherited_from: InheritanceSource,
}

/// An inherited grant as values.
pub struct InheritedView {
    pub grant: PermissionGrantView,
    pub source: SourceView,
}

/// Views of inherited grants.
pub open spec fn inherited_views(s: Seq<InheritedGrant>) -> Seq<InheritedView> {
    s.map_values(|g: InheritedGrant| InheritedView { grant: g.grant@, source: g.inherited_from@ })
}

/// An id of a unit that passes grants on to its members: an organization,
/// a team or a group.
pub trait UnitId: Sized {
    /// The id as text.
    spec fn key(&self) -> Seq<char>;

    /// The membership kind that joins this kind of unit.
    spec fn kind() -> MembershipType;

    /// The unit a membership names for this kind of unit.
    spec fn unit_of(m: Membership) -> Option<Seq<char>>;

    /// The source recorded for a grant inherited from the unit `key`.
    spec fn source_of(key: Seq<char>) -> SourceView;

    fn membership_unit(m: &Membership) -> (r: Option<&Self>)
        ensures
            match r {
                Some(i) => Self::unit_of(*m) == Some(i.key()),
                None => Self::unit_of(*m) is None,
            },
    ;

    fn same_unit(&self, other: &Self) -> (r: bool)
        ensures
            r == (self.key() == other.key()),
    ;

    fn source(&self) -> (r: InheritanceSource)
        ensures
            r@ == Self::source_of(self.key()),
    ;

    fn membership_kind() -> (r: MembershipType)
        ensures
            r == Self::kind(),
    ;

    fn duplicate_unit(&self) -> (r: Self)
        ensures
            r == *self,
    ;
}

impl UnitId for OrganizationId {
    open spec fn key(&self) -> Seq<char> {
        self@
    }

    open spec fn kind() -> MembershipType {
        MembershipType::Organization
    }

    open spec fn unit_of(m: Membership) -> Option<Seq<char>> {
        match m.org_id {
            Some(i) => Some(i@),
            None => None,
        }
    }

    open spec fn source_of(key: Seq<char>) -> SourceView {
        SourceView::Organization(key)
    }

    fn membership_unit(m: &Membership) -> (r: Option<&Self>) {
        match &m.org_id {
            Some(i) => Some(i),
            None => None,
        }
    }

    fn same_unit(&self, other: &Self) -> (r: bool) {
        self.same(other)
    }

    fn source(&self) -> (r: InheritanceSource) {
        InheritanceSource::Organization(self.duplicate())
    }

    fn membership_kind() -> (r: MembershipType) {
        MembershipType::Organization
    }

    fn duplicate_unit(&self) -> (r: Self) {
        self.duplicate()
    }
}

impl UnitId for TeamId {
    open spec fn key(&self) -> Seq<char> {
        self@
    }

    open spec fn kind() -> MembershipType {
        MembershipType::Team
    }

    open spec fn unit_of(m: Membership) -> Option<Seq<char>> {
        match m.team_id {
            Some(i) => Some(i@),
            None => None,
        }
    }

    open spec fn source_of(key: Seq<char>) -> SourceView {
        SourceView::Team(key)
    }

    fn membership_unit(m: &Membership) -> (r: Option<&Self>) {
        match &m.team_id {
            Some(i) => Some(i),
            None => None,
        }
    }

    fn same_unit(&self, other: &Self) -> (r: bool) {
        self.same(other)
    }

    fn source(&self) -> (r: InheritanceSource) {
        InheritanceSource::Team(self.duplicate())
    }

    fn membership_kind() -> (r: MembershipType) {
        MembershipType::Team
    }

    fn duplicate_unit(&self) -> (r: Self) {
        self.duplicate()
    }
}

impl UnitId for GroupId {
    open spec fn key(&self) -> Seq<char> {
        self@
    }

    open spec fn kind() -> MembershipType {
        MembershipType::Group
    }

    open spec fn unit_of(m: Membership) -> Option<Seq<char>> {
        match m.group_id {
            Some(i) => Some(i@),
            None => None,
        }
    }

    open spec fn source_of(key: Seq<char>) -> SourceView {
        SourceView::Group(key)
    }

    fn membership_unit(m: &Membership) -> (r: Option<&Self>) {
        match &m.group_id {
            Some(i) => Some(i),
            None => None,
        }
    }

    fn same_unit(&self, other: &Self) -> (r: bool) {
        self.same(other)
    }

    fn source(&self) -> (r: InheritanceSource) {
        InheritanceSource::Group(self.duplicate())
    }

    fn membership_kind() -> (r: MembershipType) {
        MembershipType::Group
    }

    fn duplicate_unit(&self) -> (r: Self) {
        self.duplicate()
    }
}

/// The user's own grants that are active at `now`, in order.
pub open spec fn direct_part(grants: Seq<PermissionGrant>, u: Seq<char>, now: i64) -> Seq<
    InheritedView,
>
    decreases grants.len(),
{
    if grants.len() == 0 {
        Seq::empty()
    } else {
        let g = grants.last();
        direct_part(grants.drop_last(), u, now) + if g.user_id@ == u && grant_active(g, now) {
            seq![InheritedView { grant: g@, source: SourceView::Direct }]
        } else {
            Seq::empty()
        }
    }
}

/// The grants of unit `key` that are active at `now`, in order.
pub open spec fn unit_grants<I: UnitId>(pairs: Seq<(I, PermissionGrant)>, key: Seq<char>, now: i64) -> Seq<
    InheritedView,
>
    decreases pairs.len(),
{
    if pairs.len() == 0 {
        Seq::empty()
    } else {
        let p = pairs.last();
        unit_grants(pairs.drop_last(), key, now) + if p.0.key() == key && grant_active(p.1, now) {
            seq![InheritedView { grant: p.1@, source: I::source_of(key) }]
        } else {
            Seq::empty()
        }
    }
}

/// Whether membership `m` passes on the grants of its unit to user `u` at
/// `now`: it is the user's, of the unit's kind, names a unit and is active.
pub open spec fn passes_on<I: UnitId>(m: Membership, u: Seq<char>, now: i64) -> bool {
    m.user_id@ == u && m.membership_type == I::kind() && I::unit_of(m) is Some && membership_active(
        m,
        now,
    )
}

/// The grants the user inherits from units of one kind, membership by
/// membership.
pub open spec fn unit_part<I: UnitId>(
    memberships: Seq<Membership>,
    pairs: Seq<(I, PermissionGrant)>,
    u: Seq<char>,
    now: i64,
) -> Seq<InheritedView>
    decreases memberships.len(),
{
    if memberships.len() == 0 {
        Seq::empty()
    } else {
        let m = memberships.last();
        unit_part(memberships.drop_last(), pairs, u, now) + if passes_on::<I>(m, u, now) {
            unit_grants(pairs, I::unit_of(m).unwrap(), now)
        } else {
            Seq::empty()
        }
    }
}

/// What an organizational store holds.
pub struct OrgStoreView {
    pub inner: PermissionStoreView,
    pub memberships: Seq<Membership>,
    pub org_grants: Seq<(OrganizationId, PermissionGrant)>,
    pub team_grants: Seq<(TeamId, PermissionGrant)>,
    pub group_grants: Seq<(GroupId, PermissionGrant)>,
}

/// Every grant user `u` holds at `now`: none when the user is not active;
/// otherwise the user's own active grants, then those inherited from the
/// user's organizations, teams and groups.
pub open spec fn inherited(v: OrgStoreView, u: Seq<char>, now: i64) -> Seq<InheritedView> {
    if lifecycle_of(v.inner.statuses, u) != EnterpriseUserLifecycle::Active {
        Seq::empty()
    } else {
        direct_part(v.inner.grants, u, now) + unit_part(v.memberships, v.org_grants, u, now)
            + unit_part(v.memberships, v.team_grants, u, now) + unit_part(
            v.memberships,
            v.group_grants,
            u,
            now,
        )
    }
}

/// Whether an inherited grant lists `action` on the resource.
pub open spec fn inherited_allows(
    g: InheritedView,
    rt: ResourceType,
    rid: Seq<char>,
    action: PermissionAction,
) -> bool {
    g.grant.resource_type == rt && g.grant.resource_id == rid && g.grant.actions.contains(action)
}

/// The decision with inheritance: allow exactly when the user is active and
/// some grant the user holds lists the action on the resource.
pub open spec fn inherited_decision(
    v: OrgStoreView,
    u: Seq<char>,
    rt: ResourceType,
    rid: Seq<char>,
    action: PermissionAction,
    now: i64,
) -> PermissionDecision {
    let gs = inherited(v, u, now);
    if lifecycle_of(v.inner.statuses, u) == EnterpriseUserLifecycle::Active && exists|i: int|
        0 <= i < gs.len() && inherited_allows(#[trigger] gs[i], rt, rid, action) {
        PermissionDecision::Allow
    } else {
        PermissionDecision::Deny
    }
}

/// A permission store with organization, team and group grants.
pub struct OrganizationalPermissionStore {
    inner: PermissionStore,
    memberships: Vec<Membership>,
    org_grants: Vec<(OrganizationId, PermissionGrant)>,
    team_grants: Vec<(TeamId, PermissionGrant)>,
    group_grants: Vec<(GroupId, PermissionGrant)>,
}

impl View for OrganizationalPermissionStore {
    type V = OrgStoreView;

    closed spec fn view(&self) -> OrgStoreView {
        OrgStoreView {
            inner: self.inner@,
            memberships: self.memberships@,
            org_grants: self.org_grants@,
            team_grants: self.team_grants@,
            group_grants: self.group_grants@,
        }
    }
}

fn push_inherited(result: &mut Vec<InheritedGrant>, grant: &PermissionGrant, source: InheritanceSource)
    ensures
        inherited_views(final(result)@) == inherited_views(old(result)@).push(
            InheritedView { grant: grant@, source: source@ },
        ),
{
    result.push(InheritedGrant { grant: grant.duplicate(), inherited_from: source });
    assert(inherited_views(result@) =~= inherited_views(old(result)@).push(
        InheritedView { grant: grant@, source: source@ },
    ));
}

fn push_unit_grants<I: UnitId>(
    result: &mut Vec<InheritedGrant>,
    memberships: &[Membership],
    pairs: &[(I, PermissionGrant)],
    user_id: &EnterpriseUserId,
    now: i64,
)
    ensures
        inherited_views(final(result)@) == inherited_views(old(result)@) + unit_part(
            memberships@,
            pairs@,
            user_id@,
            now,
        ),
{
    let ghost base = inherited_views(result@);
    let kind = I::membership_kind();
    let mut i: usize = 0;
    while i < memberships.len()
        invariant
            i <= memberships@.len(),
            kind == I::kind(),
            inherited_views(result@) == base + unit_part(memberships@.take(i as int), pairs@, user_id@, now),
        decreases memberships@.len() - i,
    {
        let m = &memberships[i];
        let ghost before = inherited_views(result@);
        proof {
            assert(memberships@.take(i + 1).drop_last() == memberships@.take(i as int));
            assert(memberships@.take(i + 1).last() == memberships@[i as int]);
        }
        if m.user_id.same(user_id) && m.membership_type == kind && m.is_active(now) {
            match I::membership_unit(m) {
                Some(unit) => {
                    let mut j: usize = 0;
                    while j < pairs.len()
                        invariant
                            j <= pairs@.len(),
                            inherited_views(result@) == before + unit_grants(
                                pairs@.take(j as int),
                                unit.key(),
                                now,
                            ),
                        decreases pairs@.len() - j,
                    {
                        let (pid, grant) = &pairs[j];
                        proof {
                            assert(pairs@.take(j + 1).drop_last() == pairs@.take(j as int));
                            assert(pairs@.take(j + 1).last() == pairs@[j as int]);
                        }
                        if pid.same_unit(unit) && grant.is_active(now) {
                            push_inherited(result, grant, unit.source());
                        }
                        j = j + 1;
                    }
                    proof {
                        assert(pairs@.take(pairs@.len() as int) == pairs@);
                    }
                },
                None => {},
            }
        }
        i = i + 1;
    }
    proof {
        assert(memberships@.take(memberships@.len() as int) == memberships@);
    }
}

impl OrganizationalPermissionStore {
    /// The store's invariant: at most one lifecycle record per user.
    pub open spec fn wf(&self) -> bool {
        unique_status_users(self@.inner.statuses)
    }

    /// An empty store.
    pub fn new() -> (r: Self)
        ensures
            r.wf(),
            r@.inner.grants.len() == 0,
            r@.inner.statuses.len() == 0,
            r@.memberships.len() == 0,
            r@.org_grants.len() == 0,
            r@.team_grants.len() == 0,
            r@.group_grants.len() == 0,
    {
        OrganizationalPermissionStore {
            inner: PermissionStore::new(),
            memberships: Vec::new(),
            org_grants: Vec::new(),
            team_grants: Vec::new(),
            group_grants: Vec::new(),
        }
    }

    /// Replaces the memberships and the organization, team and group grants.
    pub(crate) fn set_units(
        &mut self,
        memberships: Vec<Membership>,
        org_grants: Vec<(OrganizationId, PermissionGrant)>,
        team_grants: Vec<(TeamId, PermissionGrant)>,
        group_grants: Vec<(GroupId, PermissionGrant)>,
    )
        ensures
            final(self)@ == (OrgStoreView {
                inner: old(self)@.inner,
                memberships: memberships@,
                org_grants: org_grants@,
                team_grants: team_grants@,
                group_grants: group_grants@,
            }),
    {
        self.memberships = memberships;
        self.org_grants = org_grants;
        self.team_grants = team_grants;
        self.group_grants = group_grants;
    }

    /// Adds a membership.
    pub fn add_membership(&mut self, membership: Membership)
        ensures
            final(self)@ == (OrgStoreView {
                memberships: old(self)@.memberships.push(membership),
                ..old(self)@
            }),
    {
        self.memberships.push(membership);
    }

    /// Adds a grant to an organization.
    pub fn add_org_grant(&mut self, org_id: OrganizationId, grant: PermissionGrant)
        ensures
            final(self)@ == (OrgStoreView {
                org_grants: old(self)@.org_grants.push((org_id, grant)),
                ..old(self)@
            }),
    {
        self.org_grants.push((org_id, grant));
    }

    /// Adds a grant to a team.
    pub fn add_team_grant(&mut self, team_id: TeamId, grant: PermissionGrant)
        ensures
            final(self)@ == (OrgStoreView {
                team_grants: old(self)@.team_grants.push((team_id, grant)),
                ..old(self)@
            }),
    {
        self.team_grants.push((team_id, grant));
    }

    /// Adds a grant to a group.
    pub fn add_group_grant(&mut self, group_id: GroupId, grant: PermissionGrant)
        ensures
            final(self)@ == (OrgStoreView {
                group_grants: old(self)@.group_grants.push((group_id, grant)),
                ..old(self)@
            }),
    {
        self.group_grants.push((group_id, grant));
    }

    /// Adds a direct grant to a user.
    pub fn add_direct_grant(&mut self, grant: PermissionGrant)
        requires
            old(self).wf(),
        ensures
            final(self).wf(),
            final(self)@ == (OrgStoreView {
                inner: PermissionStoreView {
                    grants: old(self)@.inner.grants.push(grant),
                    ..old(self)@.inner
                },
                ..old(self)@
            }),
    {
        self.inner.add_grant(grant);
    }

    /// Records a lifecycle change, as the plain store does.
    pub fn set_user_lifecycle(&mut self, status: EnterpriseUserStatus) -> (r: bool)
        requires
            old(self).wf(),
        ensures
            final(self).wf(),
            final(self)@.inner.grants == old(self)@.inner.grants,
            final(self)@.memberships == old(self)@.memberships,
            final(self)@.org_grants == old(self)@.org_grants,
            final(self)@.team_grants == old(self)@.team_grants,
            final(self)@.group_grants == old(self)@.group_grants,
            r == crate::permission::transition_allowed(
                lifecycle_of(old(self)@.inner.statuses, status.user_id@),
                status.lifecycle,
            ) || !crate::permission::has_status(old(self)@.inner.statuses, status.user_id@),
            r ==> lifecycle_of(final(self)@.inner.statuses, status.user_id@) == status.lifecycle,
            !r ==> final(self)@.inner.statuses == old(self)@.inner.statuses,
            forall|u: Seq<char>|
                u != status.user_id@ ==> lifecycle_of(final(self)@.inner.statuses, u) == lifecycle_of(
                    old(self)@.inner.statuses,
                    u,
                ),
    {
        self.inner.set_user_lifecycle(status)
    }

    /// The user's recorded lifecycle, `Active` when none is recorded.
    pub fn get_user_lifecycle(&self, user_id: &EnterpriseUserId) -> (r: EnterpriseUserLifecycle)
        requires
            self.wf(),
        ensures
            r == lifecycle_of(self@.inner.statuses, user_id@),
    {
        self.inner.get_user_lifecycle(user_id)
    }

    /// Revokes every direct grant of the user; returns how many were not yet
    /// revoked.
    pub fn revoke_all_grants_for_user(&mut self, user_id: &EnterpriseUserId) -> (r: usize)
        requires
            old(self).wf(),
        ensures
            final(self).wf(),
            final(self)@.inner.statuses == old(self)@.inner.statuses,
            final(self)@.inner.grants == crate::permission::revoke_user_grants(
                old(self)@.inner.grants,
                user_id@,
            ),
            r == crate::permission::unrevoked_count(old(self)@.inner.grants, user_id@),
            final(self)@.memberships == old(self)@.memberships,
            final(self)@.org_grants == old(self)@.org_grants,
            final(self)@.team_grants == old(self)@.team_grants,
            final(self)@.group_grants == old(self)@.group_grants,
    {
        self.inner.revoke_all_grants_for_user(user_id)
    }

    /// Removes every membership of the user; returns how many were removed.
    pub fn remove_all_memberships_for_user(&mut self, user_id: &EnterpriseUserId) -> (r: usize)
        ensures
            final(self)@.memberships == old(self)@.memberships.filter(
                |m: Membership| m.user_id@ != user_id@,
            ),
            r == old(self)@.memberships.len() - final(self)@.memberships.len(),
            final(self)@.inner == old(self)@.inner,
            final(self)@.org_grants == old(self)@.org_grants,
            final(self)@.team_grants == old(self)@.team_grants,
            final(self)@.group_grants == old(self)@.group_grants,
    {
        let ghost orig = self.memberships@;
        let before = self.memberships.len();
        let mut rest: Vec<Membership> = Vec::new();
        std::mem::swap(&mut rest, &mut self.memberships);
        let mut kept: Vec<Membership> = Vec::new();
        let ghost mut i: int = 0;
        while rest.len() > 0
            invariant
                0 <= i <= orig.len(),
                rest@ == orig.skip(i),
                kept@ == orig.take(i).filter(|m: Membership| m.user_id@ != user_id@),
                kept@.len() <= i,
                self@.inner == old(self)@.inner,
                self@.org_grants == old(self)@.org_grants,
                self@.team_grants == old(self)@.team_grants,
                self@.group_grants == old(self)@.group_grants,
            decreases rest@.len(),
        {
            proof {
                reveal(Seq::filter);
                assert(orig.take(i + 1).drop_last() == orig.take(i));
                assert(orig.take(i + 1).last() == orig[i]);
                assert(orig.skip(i + 1) == orig.skip(i).drop_first());
            }
            let m = rest.remove(0);
            if !m.user_id.same(user_id) {
                kept.push(m);
            }
            proof {
                i = i + 1;
            }
        }
        proof {
            assert(orig.take(i) == orig);
        }
        self.memberships = kept;
        before - self.memberships.len()
    }

    /// Every grant the user holds at `now`: none for a user who is not
    /// active; otherwise the user's own active grants, then the active grants
    /// of the user's active organization, team and group memberships.
    pub fn get_inherited_grants(&self, user_id: &EnterpriseUserId, now: i64) -> (r: Vec<
        InheritedGrant,
    >)
        requires
            self.wf(),
        ensures
            inherited_views(r@) == inherited(self@, user_id@, now),
    {
        let mut result: Vec<InheritedGrant> = Vec::new();
        if !self.inner.is_user_active(user_id) {
            assert(inherited_views(result@) =~= Seq::<InheritedView>::empty());
            return result;
        }
        assert(inherited_views(result@) =~= Seq::<InheritedView>::empty());
        let grants = self.inner.grants();
        let mut i: usize = 0;
        while i < grants.len()
            invariant
                i <= grants@.len(),
                inherited_views(result@) == direct_part(grants@.take(i as int), user_id@, now),
            decreases grants@.len() - i,
        {
            proof {
                assert(grants@.take(i + 1).drop_last() == grants@.take(i as int));
                assert(grants@.take(i + 1).last() == grants@[i as int]);
            }
            let g = &grants[i];
            if g.user_id.same(user_id) && g.is_active(now) {
                push_inherited(&mut result, g, InheritanceSource::Direct);
            } else {
                assert(inherited_views(result@) == inherited_views(result@) + Seq::<InheritedView>::empty());
            }
            i = i + 1;
        }
        proof {
            assert(grants@.take(grants@.len() as int) == grants@);
        }
        push_unit_grants(&mut result, self.memberships.as_slice(), self.org_grants.as_slice(), user_id, now);
        push_unit_grants(&mut result, self.memberships.as_slice(), self.team_grants.as_slice(), user_id, now);
        push_unit_grants(&mut result, self.memberships.as_slice(), self.group_grants.as_slice(), user_id, now);
        result
    }

    /// Checks a permission with inheritance: allowed exactly when the user is
    /// active and some grant the user holds, directly or inherited, lists the
    /// action on the resource.
    pub fn check_with_inheritance(
        &self,
        user_id: &EnterpriseUserId,
        resource_type: &ResourceType,
        resource_id: &ResourceId,
        action: &PermissionAction,
        now: i64,
    ) -> (r: PermissionDecision)
        requires
            self.wf(),
        ensures
            r == inherited_decision(self@, user_id@, *resource_type, resource_id@, *action, now),
    {
        if !self.inner.is_user_active(user_id) {
            return PermissionDecision::Deny;
        }
        let gs = self.get_inherited_grants(user_id, now);
        let ghost views = inherited_views(gs@);
        let mut i: usize = 0;
        while i < gs.len()
            invariant
                i <= gs@.len(),
                views == inherited_views(gs@),
                views == inherited(self@, user_id@, now),
                lifecycle_of(self@.inner.statuses, user_id@) == EnterpriseUserLifecycle::Active,
                forall|k: int| 0 <= k < i ==> !inherited_allows(#[trigger] views[k], *resource_type, resource_id@, *action),
            decreases gs@.len() - i,
        {
            let g = &gs[i].grant;
            proof {
                assert(views[i as int].grant == g@);
            }
            if g.resource_type == *resource_type && g.resource_id.same(resource_id) && g.allows(action) {
                assert(inherited_allows(views[i as int], *resource_type, resource_id@, *action));
                return PermissionDecision::Allow;
            }
            i = i + 1;
        }
        PermissionDecision::Deny
    }
}

impl Default for OrganizationalPermissionStore {
    fn default() -> (r: Self)
        ensures
            r.wf(),
            r@.inner.grants.len() == 0,
            r@.inner.statuses.len() == 0,
            r@.memberships.len() == 0,
            r@.org_grants.len() == 0,
            r@.team_grants.len() == 0,
            r@.group_grants.len() == 0,
    {
        Self::new()
    }
}

proof fn lemma_direct_part_contains(grants: Seq<PermissionGrant>, u: Seq<char>, now: i64, i: int)
    requires
        0 <= i < grants.len(),
        grants[i].user_id@ == u,
        grant_active(grants[i], now),
    ensures
        exists|k: int| 0 <= k < direct_part(grants, u, now).len() && (#[trigger] direct_part(grants, u, now)[k]).grant == grants[i]@,
    decreases grants.len(),
{
    let d = direct_part(grants, u, now);
    if i == grants.len() - 1 {
        let k = direct_part(grants.drop_last(), u, now).len() as int;
        assert(d[k].grant == grants[i]@);
    } else {
        lemma_direct_part_contains(grants.drop_last(), u, now, i);
        let dp = direct_part(grants.drop_last(), u, now);
        let k = choose|k: int| 0 <= k < dp.len() && (#[trigger] dp[k]).grant == grants.drop_last()[i]@;
        assert(d[k] == dp[k]);
    }
}

/// A user who is not active is denied, whatever grants and memberships say.
pub proof fn law_inactive_user_denied_with_inheritance(
    v: OrgStoreView,
    u: Seq<char>,
    rt: ResourceType,
    rid: Seq<char>,
    action: PermissionAction,
    now: i64,
)
    requires
        lifecycle_of(v.inner.statuses, u) != EnterpriseUserLifecycle::Active,
    ensures
        inherited_decision(v, u, rt, rid, action, now) == PermissionDecision::Deny,
        inherited(v, u, now).len() == 0,
{
}

/// Inheritance only adds permissions: whatever the plain check allows, the
/// check with inheritance allows too.
pub proof fn law_direct_allow_implies_inherited_allow(
    v: OrgStoreView,
    u: Seq<char>,
    rt: ResourceType,
    rid: Seq<char>,
    action: PermissionAction,
    now: i64,
)
    requires
        crate::permission::check_decision(v.inner.grants, v.inner.statuses, u, rt, rid, action, now)
            == PermissionDecision::Allow,
    ensures
        inherited_decision(v, u, rt, rid, action, now) == PermissionDecision::Allow,
{
    let i = choose|i: int|
        0 <= i < v.inner.grants.len() && crate::permission::grant_matches(
            #[trigger] v.inner.grants[i],
            u,
            rt,
            rid,
            action,
            now,
        );
    lemma_direct_part_contains(v.inner.grants, u, now, i);
    let d = direct_part(v.inner.grants, u, now);
    let k = choose|k: int| 0 <= k < d.len() && (#[trigger] d[k]).grant == v.inner.grants[i]@;
    let gs = inherited(v, u, now);
    let rest = unit_part(v.memberships, v.org_grants, u, now) + unit_part(v.memberships, v.team_grants, u, now)
        + unit_part(v.memberships, v.group_grants, u, now);
    assert(gs == d + unit_part(v.memberships, v.org_grants, u, now) + unit_part(v.memberships, v.team_grants, u, now)
        + unit_part(v.memberships, v.group_grants, u, now));
    assert(gs[k] == d[k]);
    assert(inherited_allows(gs[k], rt, rid, action));
}

} // verus!
