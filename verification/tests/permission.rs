use agentos_core::org_permission::{
    InheritanceSource, Membership, MembershipType, OrganizationalPermissionStore,
};
use agentos_core::permission::{
    EnterpriseAssetPolicy, EnterpriseRole, EnterpriseUserId, EnterpriseUserLifecycle,
    EnterpriseUserStatus, GroupId, MemoryOffboardingEventStore, OffboardingEvent,
    OffboardingEventKind, OffboardingEventStore, OrganizationId, PermissionAction,
    PermissionDecision, PermissionGrant, PermissionStore, ResourceId, ResourceType, TeamId,
};
use agentos_core::server_permission::{
    CachePolicy, CacheStatus, MemoryRemotePermissionProvider, ServerBackedPermissionStore,
    ServerPermissionSnapshot,
};

/// 2026-05-25T12:00:00Z in Unix seconds.
fn ts() -> i64 {
    1779710400
}

const MINUTE: i64 = 60;
const HOUR: i64 = 3600;

fn user_a() -> EnterpriseUserId {
    EnterpriseUserId::from("user-001")
}

fn make_grant(grant_id: &str, revoked: bool) -> PermissionGrant {
    PermissionGrant {
        grant_id: grant_id.to_string(),
        user_id: user_a(),
        role: EnterpriseRole::User,
        resource_type: ResourceType::KnowledgeBase,
        resource_id: ResourceId::from("kb-main"),
        actions: vec![PermissionAction::Read],
        granted_at: ts(),
        expires_at: None,
        revoked,
    }
}

fn kb1_grant(user: &str) -> PermissionGrant {
    PermissionGrant {
        grant_id: "g-1".to_string(),
        user_id: EnterpriseUserId::from(user),
        role: EnterpriseRole::User,
        resource_type: ResourceType::KnowledgeBase,
        resource_id: ResourceId::from("kb-1"),
        actions: vec![PermissionAction::Read],
        granted_at: ts(),
        expires_at: None,
        revoked: false,
    }
}

fn membership(
    user: EnterpriseUserId,
    membership_type: MembershipType,
    org: Option<&str>,
    team: Option<&str>,
    group: Option<&str>,
) -> Membership {
    Membership {
        membership_id: "m-1".to_string(),
        user_id: user,
        membership_type,
        org_id: org.map(OrganizationId::from),
        team_id: team.map(TeamId::from),
        group_id: group.map(GroupId::from),
        role: EnterpriseRole::User,
        joined_at: ts(),
        expires_at: None,
    }
}

fn snapshot_with(id: &str, fetched_at: i64, direct: Vec<PermissionGrant>) -> ServerPermissionSnapshot {
    ServerPermissionSnapshot {
        snapshot_id: id.to_string(),
        fetched_at,
        direct_grants: direct,
        memberships: vec![],
        org_grants: vec![],
        team_grants: vec![],
        group_grants: vec![],
    }
}

fn check_main(store: &PermissionStore, action: PermissionAction) -> PermissionDecision {
    store.check(
        &user_a(),
        &ResourceType::KnowledgeBase,
        &ResourceId::from("kb-main"),
        &action,
        ts(),
    )
}

#[test]
fn enterprise_role_ordering() {
    assert!(EnterpriseRole::SuperAdmin > EnterpriseRole::Admin);
    assert!(EnterpriseRole::Admin > EnterpriseRole::User);
}

#[test]
fn enterprise_user_id_to_string() {
    let id = EnterpriseUserId::from("user-001");
    assert_eq!(id.to_string(), "user-001");
    assert_eq!(id.as_str(), "user-001");
}

#[test]
fn grant_active_when_not_revoked() {
    let grant = make_grant("grant-1", false);
    assert!(grant.is_active(ts()));
}

#[test]
fn grant_inactive_when_revoked() {
    let grant = make_grant("grant-1", true);
    assert!(!grant.is_active(ts()));
}

#[test]
fn grant_inactive_when_expired() {
    let mut grant = make_grant("grant-1", false);
    grant.expires_at = Some(ts() - HOUR);
    assert!(!grant.is_active(ts()));
}

#[test]
fn grant_active_before_expiry() {
    let mut grant = make_grant("grant-1", false);
    grant.expires_at = Some(ts() + HOUR);
    assert!(grant.is_active(ts()));
}

#[test]
fn grant_inactive_at_exact_expiry() {
    let mut grant = make_grant("grant-1", false);
    grant.expires_at = Some(ts());
    assert!(!grant.is_active(ts()));
}

#[test]
fn grant_allows_matching_action() {
    let grant = make_grant("grant-1", false);
    assert!(grant.allows(&PermissionAction::Read));
    assert!(!grant.allows(&PermissionAction::Write));
}

#[test]
fn decision_display() {
    assert_eq!(PermissionDecision::Allow.to_string(), "allow");
    assert_eq!(PermissionDecision::Deny.to_string(), "deny");
}

#[test]
fn decision_is_allowed() {
    assert!(PermissionDecision::Allow.is_allowed());
    assert!(!PermissionDecision::Deny.is_allowed());
}

#[test]
fn role_resource_and_action_display() {
    assert_eq!(EnterpriseRole::SuperAdmin.to_string(), "super_admin");
    assert_eq!(ResourceType::KnowledgeBase.to_string(), "knowledge_base");
    assert_eq!(ResourceType::AnswerCacheEvidence.to_string(), "answer_cache_evidence");
    assert_eq!(PermissionAction::Read.to_string(), "read");
    assert_eq!(PermissionAction::Admin.to_string(), "admin");
}

#[test]
fn policy_deny_by_default() {
    let policy = EnterpriseAssetPolicy::deny_by_default(
        ResourceType::KnowledgeBase,
        ResourceId::from("kb-1"),
    );
    assert_eq!(policy.default_decision, PermissionDecision::Deny);
    assert!(policy.require_explicit_grant);
}

#[test]
fn policy_allow_by_default() {
    let policy = EnterpriseAssetPolicy::allow_by_default(
        ResourceType::KnowledgeBase,
        ResourceId::from("kb-public"),
    );
    assert_eq!(policy.default_decision, PermissionDecision::Allow);
    assert!(!policy.require_explicit_grant);
}

#[test]
fn store_deny_by_default() {
    let store = PermissionStore::new();
    let decision = store.check(
        &user_a(),
        &ResourceType::KnowledgeBase,
        &ResourceId::from("kb-1"),
        &PermissionAction::Read,
        ts(),
    );
    assert_eq!(decision, PermissionDecision::Deny);
}

#[test]
fn store_allow_with_grant() {
    let mut store = PermissionStore::new();
    store.add_grant(make_grant("grant-1", false));
    assert_eq!(check_main(&store, PermissionAction::Read), PermissionDecision::Allow);
}

#[test]
fn store_deny_revoked_grant() {
    let mut store = PermissionStore::new();
    store.add_grant(make_grant("grant-1", true));
    assert_eq!(check_main(&store, PermissionAction::Read), PermissionDecision::Deny);
}

#[test]
fn store_revoke_grant() {
    let mut store = PermissionStore::new();
    store.add_grant(make_grant("grant-1", false));
    assert!(store.revoke_grant("grant-1"));
    assert_eq!(check_main(&store, PermissionAction::Read), PermissionDecision::Deny);
}

#[test]
fn store_revoke_nonexistent_grant() {
    let mut store = PermissionStore::new();
    assert!(!store.revoke_grant("nonexistent"));
}

#[test]
fn store_deny_wrong_resource() {
    let mut store = PermissionStore::new();
    store.add_grant(make_grant("grant-1", false));
    let decision = store.check(
        &user_a(),
        &ResourceType::KnowledgeBase,
        &ResourceId::from("kb-other"),
        &PermissionAction::Read,
        ts(),
    );
    assert_eq!(decision, PermissionDecision::Deny);
}

#[test]
fn store_deny_wrong_action() {
    let mut store = PermissionStore::new();
    store.add_grant(make_grant("grant-1", false));
    assert_eq!(check_main(&store, PermissionAction::Write), PermissionDecision::Deny);
}

#[test]
fn store_lists_grants_for_user_in_order() {
    let mut store = PermissionStore::new();
    store.add_grant(make_grant("g-1", false));
    let mut other = make_grant("g-other", false);
    other.user_id = EnterpriseUserId::from("user-002");
    store.add_grant(other);
    store.add_grant(make_grant("g-2", false));
    let grants = store.get_grants_for_user(&user_a());
    assert_eq!(grants.len(), 2);
    assert_eq!(grants[0].grant_id, "g-1");
    assert_eq!(grants[1].grant_id, "g-2");
    assert_eq!(store.grants().len(), 3);
}

#[test]
fn superadmin_bypasses_all_checks() {
    let store = PermissionStore::new();
    let decision = store.check_with_role(
        &user_a(),
        EnterpriseRole::SuperAdmin,
        &ResourceType::KnowledgeBase,
        &ResourceId::from("kb-secret"),
        &PermissionAction::Admin,
        ts(),
    );
    assert_eq!(decision, PermissionDecision::Allow);
}

#[test]
fn admin_can_read_anything() {
    let store = PermissionStore::new();
    let decision = store.check_with_role(
        &user_a(),
        EnterpriseRole::Admin,
        &ResourceType::KnowledgeBase,
        &ResourceId::from("kb-secret"),
        &PermissionAction::Read,
        ts(),
    );
    assert_eq!(decision, PermissionDecision::Allow);
}

#[test]
fn admin_cannot_write_without_grant() {
    let store = PermissionStore::new();
    let decision = store.check_with_role(
        &user_a(),
        EnterpriseRole::Admin,
        &ResourceType::KnowledgeBase,
        &ResourceId::from("kb-secret"),
        &PermissionAction::Write,
        ts(),
    );
    assert_eq!(decision, PermissionDecision::Deny);
}

#[test]
fn user_needs_grant() {
    let store = PermissionStore::new();
    let decision = store.check_with_role(
        &user_a(),
        EnterpriseRole::User,
        &ResourceType::KnowledgeBase,
        &ResourceId::from("kb-1"),
        &PermissionAction::Read,
        ts(),
    );
    assert_eq!(decision, PermissionDecision::Deny);
}

#[test]
fn organization_id_display() {
    let id = OrganizationId::from("org-1");
    assert_eq!(id.to_string(), "org-1");
}

#[test]
fn team_id_display() {
    let id = TeamId::from("team-1");
    assert_eq!(id.to_string(), "team-1");
}

#[test]
fn group_id_display() {
    let id = GroupId::from("group-1");
    assert_eq!(id.to_string(), "group-1");
}

#[test]
fn membership_type_display() {
    assert_eq!(MembershipType::Organization.to_string(), "organization");
    assert_eq!(MembershipType::Team.to_string(), "team");
    assert_eq!(MembershipType::Group.to_string(), "group");
}

#[test]
fn membership_is_active() {
    let m = membership(
        EnterpriseUserId::from("user-1"),
        MembershipType::Organization,
        Some("org-1"),
        None,
        None,
    );
    assert!(m.is_active(ts()));
}

#[test]
fn membership_is_expired() {
    let mut m = membership(
        EnterpriseUserId::from("user-1"),
        MembershipType::Organization,
        Some("org-1"),
        None,
        None,
    );
    m.expires_at = Some(ts() - HOUR);
    assert!(!m.is_active(ts()));
}

#[test]
fn inheritance_source_display() {
    assert_eq!(InheritanceSource::Direct.to_string(), "direct");
    assert_eq!(
        InheritanceSource::Organization(OrganizationId::from("org-1")).to_string(),
        "org:org-1"
    );
    assert_eq!(InheritanceSource::Team(TeamId::from("team-1")).to_string(), "team:team-1");
    assert_eq!(
        InheritanceSource::Group(GroupId::from("group-1")).to_string(),
        "group:group-1"
    );
}

#[test]
fn org_permission_inheritance() {
    let mut store = OrganizationalPermissionStore::new();
    store.add_membership(membership(
        EnterpriseUserId::from("user-1"),
        MembershipType::Organization,
        Some("org-1"),
        None,
        None,
    ));
    store.add_org_grant(OrganizationId::from("org-1"), kb1_grant("user-1"));
    let inherited = store.get_inherited_grants(&EnterpriseUserId::from("user-1"), ts());
    assert_eq!(inherited.len(), 1);
    assert_eq!(
        inherited[0].inherited_from,
        InheritanceSource::Organization(OrganizationId::from("org-1"))
    );
}

#[test]
fn team_permission_inheritance() {
    let mut store = OrganizationalPermissionStore::new();
    store.add_membership(membership(
        EnterpriseUserId::from("user-1"),
        MembershipType::Team,
        None,
        Some("team-1"),
        None,
    ));
    store.add_team_grant(TeamId::from("team-1"), kb1_grant("user-1"));
    let inherited = store.get_inherited_grants(&EnterpriseUserId::from("user-1"), ts());
    assert_eq!(inherited.len(), 1);
    assert_eq!(inherited[0].inherited_from, InheritanceSource::Team(TeamId::from("team-1")));
}

#[test]
fn group_permission_inheritance() {
    let mut store = OrganizationalPermissionStore::new();
    store.add_membership(membership(
        EnterpriseUserId::from("user-1"),
        MembershipType::Group,
        None,
        None,
        Some("group-1"),
    ));
    store.add_group_grant(GroupId::from("group-1"), kb1_grant("user-1"));
    let inherited = store.get_inherited_grants(&EnterpriseUserId::from("user-1"), ts());
    assert_eq!(inherited.len(), 1);
    assert_eq!(
        inherited[0].inherited_from,
        InheritanceSource::Group(GroupId::from("group-1"))
    );
}

#[test]
fn inherited_grants_skip_expired_memberships_and_list_direct_first() {
    let mut store = OrganizationalPermissionStore::new();
    let mut expired = membership(
        EnterpriseUserId::from("user-1"),
        MembershipType::Team,
        None,
        Some("team-1"),
        None,
    );
    expired.expires_at = Some(ts() - MINUTE);
    store.add_membership(expired);
    store.add_team_grant(TeamId::from("team-1"), kb1_grant("user-1"));
    store.add_direct_grant(kb1_grant("user-1"));
    let inherited = store.get_inherited_grants(&EnterpriseUserId::from("user-1"), ts());
    assert_eq!(inherited.len(), 1);
    assert_eq!(inherited[0].inherited_from, InheritanceSource::Direct);
}

#[test]
fn check_with_inheritance() {
    let mut store = OrganizationalPermissionStore::new();
    store.add_membership(membership(
        EnterpriseUserId::from("user-1"),
        MembershipType::Organization,
        Some("org-1"),
        None,
        None,
    ));
    store.add_org_grant(OrganizationId::from("org-1"), kb1_grant("user-1"));
    let decision = store.check_with_inheritance(
        &EnterpriseUserId::from("user-1"),
        &ResourceType::KnowledgeBase,
        &ResourceId::from("kb-1"),
        &PermissionAction::Read,
        ts(),
    );
    assert_eq!(decision, PermissionDecision::Allow);
}

#[test]
fn check_with_inheritance_denied() {
    let mut store = OrganizationalPermissionStore::new();
    store.add_membership(membership(
        EnterpriseUserId::from("user-1"),
        MembershipType::Organization,
        Some("org-1"),
        None,
        None,
    ));
    store.add_org_grant(OrganizationId::from("org-1"), kb1_grant("user-1"));
    let decision = store.check_with_inheritance(
        &EnterpriseUserId::from("user-1"),
        &ResourceType::KnowledgeBase,
        &ResourceId::from("kb-2"),
        &PermissionAction::Read,
        ts(),
    );
    assert_eq!(decision, PermissionDecision::Deny);
}

#[test]
fn server_backed_store_refreshes_remote_snapshot_for_inherited_check() {
    let now = ts();
    let mut snapshot = snapshot_with("snap-1", now, vec![]);
    snapshot.memberships = vec![membership(
        EnterpriseUserId::from("user-1"),
        MembershipType::Organization,
        Some("org-1"),
        None,
        None,
    )];
    snapshot.org_grants = vec![(OrganizationId::from("org-1"), kb1_grant("user-1"))];
    let provider = MemoryRemotePermissionProvider::with_snapshot(snapshot);
    let mut store = ServerBackedPermissionStore::new(provider, CachePolicy::default());

    let refresh = store.refresh(now).unwrap();
    assert_eq!(refresh.status, CacheStatus::Fresh);

    let decision = store.check_with_inheritance(
        &EnterpriseUserId::from("user-1"),
        &ResourceType::KnowledgeBase,
        &ResourceId::from("kb-1"),
        &PermissionAction::Read,
        now,
    );
    assert_eq!(decision.decision, PermissionDecision::Allow);
    assert_eq!(decision.cache_status, CacheStatus::Fresh);
}

#[test]
fn server_backed_store_uses_stale_cache_when_provider_unavailable() {
    let now = ts();
    let stale_time = now + 10 * MINUTE;
    let mut provider = MemoryRemotePermissionProvider::with_snapshot(snapshot_with(
        "snap-1",
        now,
        vec![make_grant("g-1", false)],
    ));
    let policy = CachePolicy { fresh_for: 5 * MINUTE, stale_for: 30 * MINUTE };
    let mut store = ServerBackedPermissionStore::new(provider.clone(), policy);
    store.refresh(now).unwrap();

    provider.set_available(false);
    store.set_provider(provider);
    let refresh = store.refresh(stale_time).unwrap();
    assert_eq!(refresh.status, CacheStatus::Stale);
    assert!(refresh.explanation.contains("provider unavailable"));

    let decision = store.check_with_inheritance(
        &user_a(),
        &ResourceType::KnowledgeBase,
        &ResourceId::from("kb-main"),
        &PermissionAction::Read,
        stale_time,
    );
    assert_eq!(decision.decision, PermissionDecision::Allow);
    assert_eq!(decision.cache_status, CacheStatus::Stale);
}

#[test]
fn server_backed_store_denies_when_cache_expired_and_provider_unavailable() {
    let now = ts();
    let expired_time = now + 40 * MINUTE;
    let mut provider = MemoryRemotePermissionProvider::with_snapshot(snapshot_with(
        "snap-1",
        now,
        vec![make_grant("g-1", false)],
    ));
    let policy = CachePolicy { fresh_for: 5 * MINUTE, stale_for: 30 * MINUTE };
    let mut store = ServerBackedPermissionStore::new(provider.clone(), policy);
    store.refresh(now).unwrap();

    provider.set_available(false);
    store.set_provider(provider);
    let refresh = store.refresh(expired_time).unwrap();
    assert_eq!(refresh.status, CacheStatus::Expired);

    let decision = store.check_with_inheritance(
        &user_a(),
        &ResourceType::KnowledgeBase,
        &ResourceId::from("kb-main"),
        &PermissionAction::Read,
        expired_time,
    );
    assert_eq!(decision.decision, PermissionDecision::Deny);
    assert_eq!(decision.cache_status, CacheStatus::Expired);
}

#[test]
fn server_backed_store_refresh_overwrites_revoked_cached_grant() {
    let now = ts();
    let mut provider = MemoryRemotePermissionProvider::with_snapshot(snapshot_with(
        "snap-1",
        now,
        vec![make_grant("g-1", false)],
    ));
    let mut store = ServerBackedPermissionStore::new(provider.clone(), CachePolicy::default());
    store.refresh(now).unwrap();

    provider.set_snapshot(snapshot_with("snap-2", now + MINUTE, vec![make_grant("g-1", true)]));
    store.set_provider(provider);
    store.refresh(now + MINUTE).unwrap();

    let decision = store.check_with_inheritance(
        &user_a(),
        &ResourceType::KnowledgeBase,
        &ResourceId::from("kb-main"),
        &PermissionAction::Read,
        now + MINUTE,
    );
    assert_eq!(decision.decision, PermissionDecision::Deny);
    assert_eq!(store.cached_snapshot_id(), Some("snap-2"));
}

#[test]
fn server_backed_store_without_snapshot_denies_as_expired() {
    let now = ts();
    let mut provider = MemoryRemotePermissionProvider::with_snapshot(snapshot_with(
        "snap-1",
        now,
        vec![make_grant("g-1", false)],
    ));
    provider.set_available(false);
    let mut store = ServerBackedPermissionStore::new(provider, CachePolicy::default());
    let refresh = store.refresh(now).unwrap();
    assert_eq!(refresh.status, CacheStatus::Expired);
    assert_eq!(store.cached_snapshot_id(), None);
    let decision = store.check_with_inheritance(
        &user_a(),
        &ResourceType::KnowledgeBase,
        &ResourceId::from("kb-main"),
        &PermissionAction::Read,
        now,
    );
    assert_eq!(decision.decision, PermissionDecision::Deny);
}

#[test]
fn cache_policy_default_windows() {
    let policy = CachePolicy::default();
    assert_eq!(policy.fresh_for, 5 * MINUTE);
    assert_eq!(policy.stale_for, 30 * MINUTE);
    assert_eq!(CacheStatus::Stale.to_string(), "stale");
}

#[test]
fn enterprise_user_lifecycle_display() {
    assert_eq!(EnterpriseUserLifecycle::Active.to_string(), "active");
    assert_eq!(EnterpriseUserLifecycle::Suspended.to_string(), "suspended");
    assert_eq!(EnterpriseUserLifecycle::Disabled.to_string(), "disabled");
    assert_eq!(EnterpriseUserLifecycle::Offboarded.to_string(), "offboarded");
}

#[test]
fn enterprise_user_status_rejects_offboarded_to_active_transition() {
    let status = EnterpriseUserStatus {
        user_id: user_a(),
        lifecycle: EnterpriseUserLifecycle::Offboarded,
        changed_at: ts(),
        reason: Some("left company".to_string()),
    };
    assert!(!status.can_transition_to(EnterpriseUserLifecycle::Active));
}

#[test]
fn enterprise_user_status_allows_active_to_offboarded_transition() {
    let status = EnterpriseUserStatus::active(user_a(), ts());
    assert!(status.can_transition_to(EnterpriseUserLifecycle::Offboarded));
}

#[test]
fn enterprise_user_status_allows_suspended_to_active_transition() {
    let status = EnterpriseUserStatus {
        user_id: user_a(),
        lifecycle: EnterpriseUserLifecycle::Suspended,
        changed_at: ts(),
        reason: None,
    };
    assert!(status.can_transition_to(EnterpriseUserLifecycle::Active));
}

#[test]
fn offboarding_event_kind_display() {
    assert_eq!(OffboardingEventKind::UserRemoved.to_string(), "user_removed");
    assert_eq!(OffboardingEventKind::AccountDisabled.to_string(), "account_disabled");
    assert_eq!(OffboardingEventKind::MembershipRevoked.to_string(), "membership_revoked");
    assert_eq!(
        OffboardingEventKind::AllMembershipsRevoked.to_string(),
        "all_memberships_revoked"
    );
}

fn event(kind: OffboardingEventKind) -> OffboardingEvent {
    OffboardingEvent {
        event_id: "evt-1".to_string(),
        user_id: user_a(),
        organization_id: OrganizationId::from("org-1"),
        event_kind: kind,
        triggered_by: EnterpriseUserId::from("admin-1"),
        reason: None,
        occurred_at: ts(),
    }
}

#[test]
fn memory_offboarding_event_store_records_and_lists_by_user() {
    let mut store = MemoryOffboardingEventStore::new();
    let e = event(OffboardingEventKind::UserRemoved);
    store.record(e.clone());
    assert_eq!(store.list_by_user(&user_a()), vec![e]);
    assert!(store.list_by_user(&EnterpriseUserId::from("nobody")).is_empty());
}

#[test]
fn memory_offboarding_event_store_lists_by_org() {
    let mut store = MemoryOffboardingEventStore::new();
    store.record(event(OffboardingEventKind::AllMembershipsRevoked));
    assert_eq!(store.list_by_org(&OrganizationId::from("org-1")).len(), 1);
    assert_eq!(store.list_by_org(&OrganizationId::from("org-2")).len(), 0);
}

#[test]
fn permission_store_revoke_all_grants_for_user() {
    let mut store = PermissionStore::new();
    store.add_grant(make_grant("g-1", false));
    store.add_grant(make_grant("g-2", false));
    assert_eq!(store.revoke_all_grants_for_user(&user_a()), 2);
    assert_eq!(check_main(&store, PermissionAction::Read), PermissionDecision::Deny);
    assert_eq!(store.revoke_all_grants_for_user(&user_a()), 0);
}

#[test]
fn permission_store_set_and_get_user_lifecycle() {
    let mut store = PermissionStore::new();
    assert_eq!(store.get_user_lifecycle(&user_a()), EnterpriseUserLifecycle::Active);
    store.set_user_lifecycle(EnterpriseUserStatus {
        user_id: user_a(),
        lifecycle: EnterpriseUserLifecycle::Disabled,
        changed_at: ts(),
        reason: Some("admin disabled".to_string()),
    });
    assert_eq!(store.get_user_lifecycle(&user_a()), EnterpriseUserLifecycle::Disabled);
}

#[test]
fn permission_store_denies_offboarded_user_even_with_active_grant() {
    let mut store = PermissionStore::new();
    store.add_grant(make_grant("g-1", false));
    store.set_user_lifecycle(EnterpriseUserStatus {
        user_id: user_a(),
        lifecycle: EnterpriseUserLifecycle::Offboarded,
        changed_at: ts(),
        reason: Some("left company".to_string()),
    });
    assert_eq!(
        store.check_with_role(
            &user_a(),
            EnterpriseRole::SuperAdmin,
            &ResourceType::KnowledgeBase,
            &ResourceId::from("kb-main"),
            &PermissionAction::Read,
            ts()
        ),
        PermissionDecision::Deny
    );
}

#[test]
fn permission_store_refuses_to_reactivate_offboarded_user() {
    let mut store = PermissionStore::new();
    assert!(store.set_user_lifecycle(EnterpriseUserStatus {
        user_id: user_a(),
        lifecycle: EnterpriseUserLifecycle::Offboarded,
        changed_at: ts(),
        reason: None,
    }));
    assert!(!store.set_user_lifecycle(EnterpriseUserStatus::active(user_a(), ts() + MINUTE)));
    assert_eq!(store.get_user_lifecycle(&user_a()), EnterpriseUserLifecycle::Offboarded);
}

#[test]
fn permission_store_denies_disabled_user() {
    let mut store = PermissionStore::new();
    store.add_grant(make_grant("g-1", false));
    store.set_user_lifecycle(EnterpriseUserStatus {
        user_id: user_a(),
        lifecycle: EnterpriseUserLifecycle::Disabled,
        changed_at: ts(),
        reason: None,
    });
    assert_eq!(check_main(&store, PermissionAction::Read), PermissionDecision::Deny);
}

#[test]
fn permission_store_allows_suspended_user_after_reactivation() {
    let mut store = PermissionStore::new();
    store.add_grant(make_grant("g-1", false));
    assert!(store.set_user_lifecycle(EnterpriseUserStatus {
        user_id: user_a(),
        lifecycle: EnterpriseUserLifecycle::Suspended,
        changed_at: ts(),
        reason: None
    }));
    assert!(store.set_user_lifecycle(EnterpriseUserStatus::active(user_a(), ts() + MINUTE)));
    assert_eq!(check_main(&store, PermissionAction::Read), PermissionDecision::Allow);
}

#[test]
fn permission_store_remove_all_memberships_for_user() {
    let mut store = OrganizationalPermissionStore::new();
    store.add_membership(membership(
        user_a(),
        MembershipType::Organization,
        Some("org-1"),
        None,
        None,
    ));
    assert_eq!(store.remove_all_memberships_for_user(&user_a()), 1);
    assert!(store.get_inherited_grants(&user_a(), ts()).is_empty());
}

#[test]
fn organizational_store_denies_offboarded_user_with_inheritance() {
    let mut store = OrganizationalPermissionStore::new();
    store.add_membership(membership(
        user_a(),
        MembershipType::Organization,
        Some("org-1"),
        None,
        None,
    ));
    store.add_org_grant(OrganizationId::from("org-1"), make_grant("g-1", false));
    store.set_user_lifecycle(EnterpriseUserStatus {
        user_id: user_a(),
        lifecycle: EnterpriseUserLifecycle::Offboarded,
        changed_at: ts(),
        reason: None,
    });
    assert_eq!(
        store.check_with_inheritance(
            &user_a(),
            &ResourceType::KnowledgeBase,
            &ResourceId::from("kb-main"),
            &PermissionAction::Read,
            ts()
        ),
        PermissionDecision::Deny
    );
}

#[test]
fn server_backed_store_invalidates_user_cache() {
    let now = ts();
    let provider = MemoryRemotePermissionProvider::with_snapshot(snapshot_with(
        "snap-1",
        now,
        vec![make_grant("g-1", false)],
    ));
    let mut store = ServerBackedPermissionStore::new(provider, CachePolicy::default());
    store.refresh(now).unwrap();
    assert!(store.invalidate_user(&user_a()));
    assert_eq!(
        store
            .check_with_inheritance(
                &user_a(),
                &ResourceType::KnowledgeBase,
                &ResourceId::from("kb-main"),
                &PermissionAction::Read,
                now
            )
            .decision,
        PermissionDecision::Deny
    );
}

#[test]
fn server_backed_store_denies_offboarded_user() {
    let now = ts();
    let provider = MemoryRemotePermissionProvider::with_snapshot(snapshot_with(
        "snap-1",
        now,
        vec![make_grant("g-1", false)],
    ));
    let mut store = ServerBackedPermissionStore::new(provider, CachePolicy::default());
    store.refresh(now).unwrap();
    store.set_user_lifecycle(EnterpriseUserStatus {
        user_id: user_a(),
        lifecycle: EnterpriseUserLifecycle::Offboarded,
        changed_at: now,
        reason: None,
    });
    assert_eq!(store.get_user_lifecycle(&user_a()), EnterpriseUserLifecycle::Offboarded);
    assert_eq!(
        store
            .check_with_inheritance(
                &user_a(),
                &ResourceType::KnowledgeBase,
                &ResourceId::from("kb-main"),
                &PermissionAction::Read,
                now
            )
            .decision,
        PermissionDecision::Deny
    );
}

#[test]
fn offboarded_user_cannot_access_enterprise_resources_with_stale_grant() {
    let now = ts();
    let stale_time = now + 10 * MINUTE;
    let mut provider = MemoryRemotePermissionProvider::with_snapshot(snapshot_with(
        "snap-1",
        now,
        vec![make_grant("g-1", false)],
    ));
    let mut store = ServerBackedPermissionStore::new(
        provider.clone(),
        CachePolicy { fresh_for: 5 * MINUTE, stale_for: 30 * MINUTE },
    );
    store.refresh(now).unwrap();
    provider.set_available(false);
    store.set_provider(provider);
    store.refresh(stale_time).unwrap();
    store.set_user_lifecycle(EnterpriseUserStatus {
        user_id: user_a(),
        lifecycle: EnterpriseUserLifecycle::Offboarded,
        changed_at: stale_time,
        reason: None,
    });
    let decision = store.check_with_inheritance(
        &user_a(),
        &ResourceType::KnowledgeBase,
        &ResourceId::from("kb-main"),
        &PermissionAction::Read,
        stale_time,
    );
    assert_eq!(decision.cache_status, CacheStatus::Stale);
    assert_eq!(decision.decision, PermissionDecision::Deny);
}
