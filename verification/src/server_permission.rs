//! Permissions fetched from an enterprise permission server: snapshots, the
//! local cache with its freshness policy, and the explicit offline behavior
//! (stale caches still answer, expired caches deny). Times are Unix seconds.
use crate::org_permission::{
    inherited_decision, Membership, OrgStoreView, OrganizationalPermissionStore, UnitId,
};
use crate::permission::{
    lifecycle_of, EnterpriseUserId, EnterpriseUserLifecycle, EnterpriseUserStatus, GroupId,
    OrganizationId, PermissionAction, PermissionDecision, PermissionGrant, PermissionGrantView,
    PermissionStoreView, ResourceId, ResourceType, TeamId, unique_status_users,
};
use crate::text::{owned, push_str};
use vstd::prelude::*;

verus! {

/// Permission data fetched from an enterprise permission server.
#[derive(Debug, Clone, PartialEq)]
pub struct ServerPermissionSnapshot {
    pub snapshot_id: String,
    pub fetched_at: i64,
    pub direct_grants: Vec<PermissionGrant>,
    pub memberships: Vec<Membership>,
    pub org_grants: Vec<(OrganizationId, PermissionGrant)>,
    pub team_grants: Vec<(TeamId, PermissionGrant)>,
    pub group_grants: Vec<(GroupId, PermissionGrant)>,
}

/// Grants as values.
pub open spec fn grant_views(s: Seq<PermissionGrant>) -> Seq<PermissionGrantView> {
    s.map_values(|g: PermissionGrant| g@)
}

/// Unit grants with ids and grants as values.
pub open spec fn pair_views<I: View>(s: Seq<(I, PermissionGrant)>) -> Seq<(I::V, PermissionGrantView)> {
    s.map_values(|p: (I, PermissionGrant)| (p.0@, p.1@))
}

/// A snapshot as values.
pub struct SnapshotView {
    pub snapshot_id: Seq<char>,
    pub fetched_at: i64,
    pub direct_grants: Seq<PermissionGrantView>,
    pub memberships: Seq<Membership>,
    pub org_grants: Seq<(Seq<char>, PermissionGrantView)>,
    pub team_grants: Seq<(Seq<char>, PermissionGrantView)>,
    pub group_grants: Seq<(Seq<char>, PermissionGrantView)>,
}

impl View for ServerPermissionSnapshot {
    type V = SnapshotView;

    open spec fn view(&self) -> SnapshotView {
        SnapshotView {
            snapshot_id: self.snapshot_id@,
            fetched_at: self.fetched_at,
            direct_grants: grant_views(self.direct_grants@),
            memberships: self.memberships@,
            org_grants: pair_views(self.org_grants@),
            team_grants: pair_views(self.team_grants@),
            group_grants: pair_views(self.group_grants@),
        }
    }
}

fn duplicate_grants(s: &Vec<PermissionGrant>) -> (r: Vec<PermissionGrant>)
    ensures
        grant_views(r@) == grant_views(s@),
{
    let mut out: Vec<PermissionGrant> = Vec::new();
    let mut i: usize = 0;
    while i < s.len()
        invariant
            i <= s@.len(),
            grant_views(out@) == grant_views(s@.take(i as int)),
        decreases s@.len() - i,
    {
        let ghost before = out@;
        out.push(s[i].duplicate());
        proof {
            assert(grant_views(s@.take(i + 1)) =~= grant_views(s@.take(i as int)).push(s@[i as int]@));
            assert(grant_views(out@) =~= grant_views(before).push(s@[i as int]@));
        }
        i = i + 1;
    }
    proof {
        assert(s@.take(s@.len() as int) == s@);
    }
    out
}

fn duplicate_pairs<I: UnitId + View>(s: &Vec<(I, PermissionGrant)>) -> (r: Vec<(I, PermissionGrant)>)
    ensures
        pair_views(r@) == pair_views(s@),
{
    let mut out: Vec<(I, PermissionGrant)> = Vec::new();
    let mut i: usize = 0;
    while i < s.len()
        invariant
            i <= s@.len(),
            pair_views(out@) == pair_views(s@.take(i as int)),
        decreases s@.len() - i,
    {
        let ghost before = out@;
        let (unit, grant) = &s[i];
        out.push((unit.duplicate_unit(), grant.duplicate()));
        proof {
            assert(pair_views(s@.take(i + 1)) =~= pair_views(s@.take(i as int)).push(
                (s@[i as int].0@, s@[i as int].1@),
            ));
            assert(pair_views(out@) =~= pair_views(before).push((s@[i as int].0@, s@[i as int].1@)));
        }
        i = i + 1;
    }
    proof {
        assert(s@.take(s@.len() as int) == s@);
    }
    out
}

fn duplicate_memberships(s: &Vec<Membership>) -> (r: Vec<Membership>)
    ensures
        r@ == s@,
{
    let mut out: Vec<Membership> = Vec::new();
    let mut i: usize = 0;
    while i < s.len()
        invariant
            i <= s@.len(),
            out@ == s@.take(i as int),
        decreases s@.len() - i,
    {
        out.push(s[i].duplicate());
        proof {
            assert(s@.take(i + 1) == s@.take(i as int).push(s@[i as int]));
        }
        i = i + 1;
    }
    proof {
        assert(s@.take(s@.len() as int) == s@);
    }
    out
}

/// The store a snapshot describes: its direct grants, no lifecycle records,
/// and its memberships and unit grants.
pub open spec fn snapshot_store(s: ServerPermissionSnapshot) -> OrgStoreView {
    OrgStoreView {
        inner: PermissionStoreView { grants: s.direct_grants@, statuses: Seq::empty() },
        memberships: s.memberships@,
        org_grants: s.org_grants@,
        team_grants: s.team_grants@,
        group_grants: s.group_grants@,
    }
}

impl ServerPermissionSnapshot {
    /// A copy of the snapshot with the same value.
    pub fn duplicate(&self) -> (r: ServerPermissionSnapshot)
        ensures
            r@ == self@,
    {
        ServerPermissionSnapshot {
            snapshot_id: self.snapshot_id.clone(),
            fetched_at: self.fetched_at,
            direct_grants: duplicate_grants(&self.direct_grants),
            memberships: duplicate_memberships(&self.memberships),
            org_grants: duplicate_pairs(&self.org_grants),
            team_grants: duplicate_pairs(&self.team_grants),
            group_grants: duplicate_pairs(&self.group_grants),
        }
    }

    /// The store the snapshot describes.
    pub fn into_store(self) -> (r: OrganizationalPermissionStore)
        ensures
            r.wf(),
            r@ == snapshot_store(self),
    {
        let ghost snap = self;
        let mut store = OrganizationalPermissionStore::new();
        let ServerPermissionSnapshot {
            snapshot_id: _,
            fetched_at: _,
            direct_grants,
            memberships,
            org_grants,
            team_grants,
            group_grants,
        } = self;
        let mut rest = direct_grants;
        let ghost all = rest@;
        let ghost mut i: int = 0;
        while rest.len() > 0
            invariant
                0 <= i <= all.len(),
                rest@ == all.skip(i),
                store.wf(),
                store@.inner.grants == all.take(i),
                store@.inner.statuses.len() == 0,
                store@.memberships.len() == 0,
                store@.org_grants.len() == 0,
                store@.team_grants.len() == 0,
                store@.group_grants.len() == 0,
            decreases rest@.len(),
        {
            proof {
                assert(all.skip(i + 1) == all.skip(i).drop_first());
                assert(all.take(i + 1) == all.take(i).push(all[i]));
            }
            let g = rest.remove(0);
            store.add_direct_grant(g);
            proof {
                i = i + 1;
            }
        }
        proof {
            assert(all.take(i) == all);
        }
        store.set_units(memberships, org_grants, team_grants, group_grants);
        assert(store@.inner.statuses =~= Seq::<EnterpriseUserStatus>::empty());
        store
    }
}

/// Freshness state for a server-backed permission cache.
#[derive(Debug, Clone, Copy, PartialEq, Eq, Structural)]
pub enum CacheStatus {
    Fresh,
    Stale,
    Expired,
}

impl CacheStatus {
    /// The displayed status.
    pub open spec fn display(self) -> Seq<char> {
        match self {
            CacheStatus::Fresh => "fresh"@,
            CacheStatus::Stale => "stale"@,
            CacheStatus::Expired => "expired"@,
        }
    }

    /// The displayed status.
    pub fn to_string(&self) -> (r: String)
        ensures
            r@ == self.display(),
    {
        match self {
            CacheStatus::Fresh => owned("fresh"),
            CacheStatus::Stale => owned("stale"),
            CacheStatus::Expired => owned("expired"),
        }
    }
}

/// Cache freshness policy, in seconds: fresh for `fresh_for` after a fetch,
/// then stale for `stale_for` more, then expired.
#[derive(Debug, Clone, Copy, PartialEq, Eq)]
pub struct CachePolicy {
    pub fresh_for: i64,
    pub stale_for: i64,
}

impl Default for CachePolicy {
    fn default() -> (r: Self)
        ensures
            r.fresh_for == 300,
            r.stale_for == 1800,
    {
        CachePolicy { fresh_for: 300, stale_for: 1800 }
    }
}

/// Result of refreshing a permission cache from a remote provider.
#[derive(Debug, Clone, PartialEq, Eq)]
pub struct CacheRefreshReport {
    pub status: CacheStatus,
    pub snapshot_id: Option<String>,
    pub explanation: String,
}

/// Permission decision plus cache freshness explanation.
#[derive(Debug, Clone, PartialEq, Eq)]
pub struct CachedPermissionDecision {
    pub decision: PermissionDecision,
    pub cache_status: CacheStatus,
    pub explanation: String,
}

/// Error returned by a remote permission provider.
#[derive(Debug, Clone, PartialEq, Eq)]
pub enum PermissionProviderError {
    Unavailable(String),
    InvalidSnapshot(String),
}

impl PermissionProviderError {
    /// The displayed error.
    pub open spec fn display(self) -> Seq<char> {
        match self {
            PermissionProviderError::Unavailable(m) => "provider unavailable: "@ + m@,
            PermissionProviderError::InvalidSnapshot(m) => "provider returned invalid snapshot: "@
                + m@,
        }
    }

    /// The displayed error.
    pub fn to_string(&self) -> (r: String)
        ensures
            r@ == self.display(),
    {
        match self {
            PermissionProviderError::Unavailable(m) => {
                let mut s = owned("provider unavailable: ");
                push_str(&mut s, m.as_str());
                s
            },
            PermissionProviderError::InvalidSnapshot(m) => {
                let mut s = owned("provider returned invalid snapshot: ");
                push_str(&mut s, m.as_str());
                s
            },
        }
    }
}

/// Boundary for server-backed enterprise permission providers.
pub trait RemotePermissionProvider: Sized {
    /// Fetches the current permission snapshot.
    fn fetch_snapshot(&self, now: i64) -> Result<ServerPermissionSnapshot, PermissionProviderError>;
}

/// In-memory remote permission provider used by tests and host test doubles.
#[derive(Debug, Clone)]
pub struct MemoryRemotePermissionProvider {
    snapshot: ServerPermissionSnapshot,
    available: bool,
}

impl MemoryRemotePermissionProvider {
    /// An available provider serving `snapshot`.
    pub fn with_snapshot(snapshot: ServerPermissionSnapshot) -> (r: Self)
        ensures
            r.snapshot() == snapshot,
            r.available(),
    {
        MemoryRemotePermissionProvider { snapshot, available: true }
    }

    /// The snapshot served.
    pub closed spec fn snapshot(&self) -> ServerPermissionSnapshot {
        self.snapshot
    }

    /// Whether the provider answers.
    pub closed spec fn available(&self) -> bool {
        self.available
    }

    pub fn set_snapshot(&mut self, snapshot: ServerPermissionSnapshot)
        ensures
            final(self).snapshot() == snapshot,
            final(self).available() == old(self).available(),
    {
        self.snapshot = snapshot;
    }

    pub fn set_available(&mut self, available: bool)
        ensures
            final(self).snapshot() == old(self).snapshot(),
            final(self).available() == available,
    {
        self.available = available;
    }
}

impl RemotePermissionProvider for MemoryRemotePermissionProvider {
    fn fetch_snapshot(&self, now: i64) -> (r: Result<ServerPermissionSnapshot, PermissionProviderError>)
        ensures
            self.available() ==> (r matches Ok(s) && s@ == self.snapshot()@),
            !self.available() ==> (r matches Err(PermissionProviderError::Unavailable(m)) && m@
                == "provider unavailable"@),
    {
        if self.available {
            Ok(self.snapshot.duplicate())
        } else {
            Err(PermissionProviderError::Unavailable(owned("provider unavailable")))
        }
    }
}


/// The freshness of a cache fetched at `fetched_at` (none when nothing was
/// fetched), seen at `now`.
pub open spec fn cache_status(policy: CachePolicy, fetched_at: Option<i64>, now: i64) -> CacheStatus {
    match fetched_at {
        None => CacheStatus::Expired,
        Some(f) => {
            let age = now - f;
            if age <= policy.fresh_for {
                CacheStatus::Fresh
            } else if age <= policy.fresh_for + policy.stale_for {
                CacheStatus::Stale
            } else {
                CacheStatus::Expired
            }
        },
    }
}

/// The explanation after a failed refresh.
pub open spec fn offline_explanation(status: CacheStatus, error: PermissionProviderError) -> Seq<char> {
    match status {
        CacheStatus::Expired => "provider unavailable; permission cache expired: "@ + error.display(),
        _ => "provider unavailable; using "@ + status.display() + " permission cache: "@
            + error.display(),
    }
}

/// The explanation after a successful refresh.
pub open spec fn refreshed_explanation(snapshot_id: Seq<char>) -> Seq<char> {
    "permission snapshot "@ + snapshot_id + " refreshed from provider"@
}

/// What a server-backed store holds besides its provider.
pub struct ServerStoreView {
    pub policy: CachePolicy,
    pub snapshot_id: Option<Seq<char>>,
    pub fetched_at: Option<i64>,
    pub store: Option<OrgStoreView>,
    pub last_status: CacheStatus,
    pub last_explanation: Seq<char>,
}

/// Server-backed permission store with a local cache and explicit offline
/// behavior.
pub struct ServerBackedPermissionStore<P: RemotePermissionProvider> {
    provider: P,
    policy: CachePolicy,
    cached_snapshot_id: Option<String>,
    cached_fetched_at: Option<i64>,
    cached_store: Option<OrganizationalPermissionStore>,
    last_status: CacheStatus,
    last_explanation: String,
}

impl<P: RemotePermissionProvider> View for ServerBackedPermissionStore<P> {
    type V = ServerStoreView;

    closed spec fn view(&self) -> ServerStoreView {
        ServerStoreView {
            policy: self.policy,
            snapshot_id: match self.cached_snapshot_id {
                Some(s) => Some(s@),
                None => None,
            },
            fetched_at: self.cached_fetched_at,
            store: match self.cached_store {
                Some(s) => Some(s@),
                None => None,
            },
            last_status: self.last_status,
            last_explanation: self.last_explanation@,
        }
    }
}

/// The decision a cached store gives: deny by default when there is none.
pub open spec fn cached_decision(
    store: Option<OrgStoreView>,
    u: Seq<char>,
    rt: ResourceType,
    rid: Seq<char>,
    action: PermissionAction,
    now: i64,
) -> PermissionDecision {
    match store {
        Some(s) => inherited_decision(s, u, rt, rid, action, now),
        None => PermissionDecision::Deny,
    }
}

impl<P: RemotePermissionProvider> ServerBackedPermissionStore<P> {
    /// The invariant: a cached store keeps one lifecycle record per user.
    pub open spec fn wf(&self) -> bool {
        self@.store matches Some(s) ==> unique_status_users(s.inner.statuses)
    }

    /// The provider the store refreshes from.
    pub closed spec fn provider(&self) -> P {
        self.provider
    }

    /// An empty, expired cache over `provider`.
    pub fn new(provider: P, policy: CachePolicy) -> (r: Self)
        ensures
            r.wf(),
            r.provider() == provider,
            r@ == (ServerStoreView {
                policy,
                snapshot_id: None,
                fetched_at: None,
                store: None,
                last_status: CacheStatus::Expired,
                last_explanation: "cache not populated"@,
            }),
    {
        ServerBackedPermissionStore {
            provider,
            policy,
            cached_snapshot_id: None,
            cached_fetched_at: None,
            cached_store: None,
            last_status: CacheStatus::Expired,
            last_explanation: owned("cache not populated"),
        }
    }

    /// Replaces the provider; the cache is kept.
    pub fn set_provider(&mut self, provider: P)
        ensures
            final(self)@ == old(self)@,
            final(self).provider() == provider,
    {
        self.provider = provider;
    }

    /// The id of the cached snapshot, if any.
    pub fn cached_snapshot_id(&self) -> (r: Option<&str>)
        ensures
            match r {
                Some(s) => self@.snapshot_id == Some(s@),
                None => self@.snapshot_id is None,
            },
    {
        match &self.cached_snapshot_id {
            Some(s) => Some(s.as_str()),
            None => None,
        }
    }

    /// Records a lifecycle change in the cached store, creating an empty one
    /// when none is cached.
    pub fn set_user_lifecycle(&mut self, status: EnterpriseUserStatus) -> (r: bool)
        requires
            old(self).wf(),
        ensures
            final(self).wf(),
            final(self)@.store is Some,
            ({
                let before = match old(self)@.store {
                    Some(s) => s.inner.statuses,
                    None => Seq::<EnterpriseUserStatus>::empty(),
                };
                let after = final(self)@.store.unwrap().inner.statuses;
                &&& r == crate::permission::transition_allowed(
                    lifecycle_of(before, status.user_id@),
                    status.lifecycle,
                ) || !crate::permission::has_status(before, status.user_id@)
                &&& r ==> lifecycle_of(after, status.user_id@) == status.lifecycle
                &&& !r ==> after == before
                &&& forall|u: Seq<char>| u != status.user_id@ ==> lifecycle_of(after, u) == lifecycle_of(before, u)
            }),
    {
        let mut slot: Option<OrganizationalPermissionStore> = None;
        std::mem::swap(&mut slot, &mut self.cached_store);
        let mut store = match slot {
            Some(s) => s,
            None => OrganizationalPermissionStore::new(),
        };
        let r = store.set_user_lifecycle(status);
        self.cached_store = Some(store);
        r
    }

    /// The user's lifecycle in the cached store, `Active` when nothing is
    /// cached or recorded.
    pub fn get_user_lifecycle(&self, user_id: &EnterpriseUserId) -> (r: EnterpriseUserLifecycle)
        requires
            self.wf(),
        ensures
            r == match self@.store {
                Some(s) => lifecycle_of(s.inner.statuses, user_id@),
                None => EnterpriseUserLifecycle::Active,
            },
    {
        match &self.cached_store {
            Some(s) => s.get_user_lifecycle(user_id),
            None => EnterpriseUserLifecycle::Active,
        }
    }

    /// Revokes the user's cached direct grants and removes the user's cached
    /// memberships; returns whether anything changed.
    pub fn invalidate_user(&mut self, user_id: &EnterpriseUserId) -> (r: bool)
        requires
            old(self).wf(),
        ensures
            final(self).wf(),
            old(self)@.store is None ==> !r && final(self)@ == old(self)@,
            old(self)@.store matches Some(s) ==> {
                let t = final(self)@.store.unwrap();
                &&& final(self)@.store is Some
                &&& t.inner.grants == crate::permission::revoke_user_grants(s.inner.grants, user_id@)
                &&& t.inner.statuses == s.inner.statuses
                &&& t.memberships == s.memberships.filter(|m: Membership| m.user_id@ != user_id@)
                &&& t.org_grants == s.org_grants
                &&& t.team_grants == s.team_grants
                &&& t.group_grants == s.group_grants
                &&& r == (crate::permission::unrevoked_count(s.inner.grants, user_id@) > 0
                    || t.memberships.len() < s.memberships.len())
            },
    {
        let mut slot: Option<OrganizationalPermissionStore> = None;
        std::mem::swap(&mut slot, &mut self.cached_store);
        match slot {
            None => false,
            Some(mut store) => {
                let revoked = store.revoke_all_grants_for_user(user_id);
                let removed = store.remove_all_memberships_for_user(user_id);
                self.cached_store = Some(store);
                revoked > 0 || removed > 0
            },
        }
    }

    fn cache_status_at(&self, now: i64) -> (r: CacheStatus)
        ensures
            r == cache_status(self@.policy, self@.fetched_at, now),
    {
        match self.cached_fetched_at {
            None => CacheStatus::Expired,
            Some(fetched_at) => {
                let age = (now as i128) - (fetched_at as i128);
                if age <= self.policy.fresh_for as i128 {
                    CacheStatus::Fresh
                } else if age <= (self.policy.fresh_for as i128) + (self.policy.stale_for as i128) {
                    CacheStatus::Stale
                } else {
                    CacheStatus::Expired
                }
            },
        }
    }

    /// Updates the cache with what the provider returned: a snapshot replaces
    /// the cache; an error keeps it and explains whether it is still used.
    pub fn apply_refresh(
        &mut self,
        now: i64,
        fetched: Result<ServerPermissionSnapshot, PermissionProviderError>,
    ) -> (r: CacheRefreshReport)
        requires
            old(self).wf(),
        ensures
            final(self).wf(),
            final(self).provider() == old(self).provider(),
            final(self)@.policy == old(self)@.policy,
            match fetched {
                Ok(s) => {
                    &&& final(self)@.store == Some(snapshot_store(s))
                    &&& final(self)@.snapshot_id == Some(s.snapshot_id@)
                    &&& final(self)@.fetched_at == Some(s.fetched_at)
                    &&& final(self)@.last_status == cache_status(old(self)@.policy, Some(s.fetched_at), now)
                    &&& final(self)@.last_explanation == refreshed_explanation(s.snapshot_id@)
                    &&& r.snapshot_id matches Some(id) && id@ == s.snapshot_id@
                },
                Err(e) => {
                    &&& final(self)@.store == old(self)@.store
                    &&& final(self)@.snapshot_id == old(self)@.snapshot_id
                    &&& final(self)@.fetched_at == old(self)@.fetched_at
                    &&& final(self)@.last_status == cache_status(old(self)@.policy, old(self)@.fetched_at, now)
                    &&& final(self)@.last_explanation == offline_explanation(final(self)@.last_status, e)
                    &&& match r.snapshot_id {
                        Some(id) => old(self)@.snapshot_id == Some(id@),
                        None => old(self)@.snapshot_id is None,
                    }
                },
            },
            r.status == final(self)@.last_status,
            r.explanation@ == final(self)@.last_explanation,
    {
        match fetched {
            Ok(snapshot) => {
                let snapshot_id = snapshot.snapshot_id.clone();
                let fetched_at = snapshot.fetched_at;
                self.cached_store = Some(snapshot.into_store());
                self.cached_snapshot_id = Some(snapshot_id.clone());
                self.cached_fetched_at = Some(fetched_at);
                self.last_status = self.cache_status_at(now);
                let mut explanation = owned("permission snapshot ");
                push_str(&mut explanation, snapshot_id.as_str());
                push_str(&mut explanation, " refreshed from provider");
                self.last_explanation = explanation.clone();
                CacheRefreshReport {
                    status: self.last_status,
                    snapshot_id: Some(snapshot_id),
                    explanation,
                }
            },
            Err(error) => {
                self.last_status = self.cache_status_at(now);
                let explanation = match self.last_status {
                    CacheStatus::Expired => {
                        let mut s = owned("provider unavailable; permission cache expired: ");
                        push_str(&mut s, error.to_string().as_str());
                        s
                    },
                    _ => {
                        let mut s = owned("provider unavailable; using ");
                        push_str(&mut s, self.last_status.to_string().as_str());
                        push_str(&mut s, " permission cache: ");
                        push_str(&mut s, error.to_string().as_str());
                        s
                    },
                };
                self.last_explanation = explanation.clone();
                let snapshot_id = match &self.cached_snapshot_id {
                    Some(id) => Some(id.clone()),
                    None => None,
                };
                CacheRefreshReport { status: self.last_status, snapshot_id, explanation }
            },
        }
    }

    /// Refreshes the cache from the provider. Whatever the provider returns,
    /// the report's status and explanation are the cache's new ones, and the
    /// cache either holds the fetched snapshot or is unchanged.
    pub fn refresh(&mut self, now: i64) -> (r: Result<CacheRefreshReport, crate::permission::PermissionError>)
        requires
            old(self).wf(),
        ensures
            final(self).wf(),
            final(self)@.policy == old(self)@.policy,
            r matches Ok(report) && report.status == final(self)@.last_status
                && report.explanation@ == final(self)@.last_explanation,
            final(self)@.store == old(self)@.store || final(self)@.last_explanation
                == refreshed_explanation(final(self)@.snapshot_id.unwrap()),
            final(self)@.last_status == cache_status(final(self)@.policy, final(self)@.fetched_at, now),
    {
        let fetched = self.provider.fetch_snapshot(now);
        Ok(self.apply_refresh(now, fetched))
    }

    /// Checks a permission against the cache: an expired cache denies by
    /// default; otherwise the cached store decides (deny when none).
    pub fn check_with_inheritance(
        &self,
        user_id: &EnterpriseUserId,
        resource_type: &ResourceType,
        resource_id: &ResourceId,
        action: &PermissionAction,
        now: i64,
    ) -> (r: CachedPermissionDecision)
        requires
            self.wf(),
        ensures
            r.cache_status == cache_status(self@.policy, self@.fetched_at, now),
            r.cache_status == CacheStatus::Expired ==> r.decision == PermissionDecision::Deny
                && r.explanation@ == "permission cache expired; deny by default"@,
            r.cache_status != CacheStatus::Expired ==> r.decision == cached_decision(
                self@.store,
                user_id@,
                *resource_type,
                resource_id@,
                *action,
                now,
            ) && r.explanation@ == self@.last_explanation,
    {
        let status = self.cache_status_at(now);
        if status == CacheStatus::Expired {
            return CachedPermissionDecision {
                decision: PermissionDecision::Deny,
                cache_status: status,
                explanation: owned("permission cache expired; deny by default"),
            };
        }
        let decision = match &self.cached_store {
            Some(store) => store.check_with_inheritance(user_id, resource_type, resource_id, action, now),
            None => PermissionDecision::Deny,
        };
        CachedPermissionDecision {
            decision,
            cache_status: status,
            explanation: self.last_explanation.clone(),
        }
    }
}

/// A cache that has not been fetched is expired; within the fresh window a
/// fetched cache is fresh, within the stale window after it stale.
pub proof fn law_cache_status_windows(policy: CachePolicy, f: i64, now: i64)
    requires
        policy.fresh_for >= 0,
        policy.stale_for >= 0,
    ensures
        cache_status(policy, None, now) == CacheStatus::Expired,
        now - f <= policy.fresh_for ==> cache_status(policy, Some(f), now) == CacheStatus::Fresh,
        policy.fresh_for < now - f <= policy.fresh_for + policy.stale_for ==> cache_status(
            policy,
            Some(f),
            now,
        ) == CacheStatus::Stale,
        now - f > policy.fresh_for + policy.stale_for ==> cache_status(policy, Some(f), now)
            == CacheStatus::Expired,
{
}

/// An offboarded, disabled or suspended user is denied by the cache
/// whatever it holds.
pub proof fn law_inactive_user_denied_by_cache(
    store: Option<OrgStoreView>,
    u: Seq<char>,
    rt: ResourceType,
    rid: Seq<char>,
    action: PermissionAction,
    now: i64,
)
    requires
        store matches Some(s) ==> lifecycle_of(s.inner.statuses, u) != EnterpriseUserLifecycle::Active,
    ensures
        cached_decision(store, u, rt, rid, action, now) == PermissionDecision::Deny,
{
}

} // verus!
