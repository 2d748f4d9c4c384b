use auth_core::errors::OAuthError;
use auth_core::ids::OrganizationId;
use auth_core::ids::ProjectId;
use auth_core::ids::TeamId;
use auth_core::ids::UserId;
use auth_core::permissions::OrganizationPermissions;
use auth_core::permissions::ProjectPermissions;
use auth_core::permissions::ORGANIZATION_MANAGE_INVITES;
use auth_core::permissions::PROJECT_MANAGE_INVITES;
use auth_core::teams::MemberPermissions;
use auth_core::teams::Organization;
use auth_core::teams::Project;
use auth_core::teams::Team;
use auth_core::teams::TeamMember;
use auth_core::teams::TeamOwner;
use auth_core::teams::TeamStore;

const ORG_TEAM: TeamId = TeamId(1);
const PROJECT_TEAM: TeamId = TeamId(2);
const ORG: OrganizationId = OrganizationId(10);
const PROJECT: ProjectId = ProjectId(20);
const ALICE: UserId = UserId(100);

/// An organization with a team, and a project of that organization with a
/// team of its own.
fn org_owned_project() -> TeamStore {
    let mut store = TeamStore::new();
    store.insert_team(Team { id: ORG_TEAM, owner: TeamOwner::Organization(ORG) }).unwrap();
    store.insert_organization(Organization { id: ORG, team_id: ORG_TEAM }).unwrap();
    store.insert_team(Team { id: PROJECT_TEAM, owner: TeamOwner::Project(PROJECT) }).unwrap();
    store
        .insert_project(Project { id: PROJECT, team_id: PROJECT_TEAM, organization_id: Some(ORG) })
        .unwrap();
    store
}

#[test]
fn org_membership_projects_onto_org_owned_projects() {
    let mut store = org_owned_project();
    store
        .insert_member(TeamMember {
            team_id: ORG_TEAM,
            user_id: ALICE,
            permissions: MemberPermissions::Organization(OrganizationPermissions(
                ORGANIZATION_MANAGE_INVITES,
            )),
        })
        .unwrap();

    // No project-team row: the organization row decides, projected into
    // project terms.
    assert_eq!(
        store.effective_project_permissions(ALICE, PROJECT),
        ProjectPermissions(PROJECT_MANAGE_INVITES)
    );
    assert_eq!(
        store.effective_organization_permissions(ALICE, ORG),
        OrganizationPermissions(ORGANIZATION_MANAGE_INVITES)
    );
}

#[test]
fn project_row_replaces_org_grant_even_when_empty() {
    let mut store = org_owned_project();
    store
        .insert_member(TeamMember {
            team_id: ORG_TEAM,
            user_id: ALICE,
            permissions: MemberPermissions::Organization(OrganizationPermissions(
                ORGANIZATION_MANAGE_INVITES,
            )),
        })
        .unwrap();
    // An explicit project-team row with zero permissions wins over the
    // organization grant: full replacement, not union.
    store
        .insert_member(TeamMember {
            team_id: PROJECT_TEAM,
            user_id: ALICE,
            permissions: MemberPermissions::Project(ProjectPermissions(0)),
        })
        .unwrap();

    assert_eq!(store.effective_project_permissions(ALICE, PROJECT), ProjectPermissions(0));
    // The organization-level answer is untouched by the project row.
    assert_eq!(
        store.effective_organization_permissions(ALICE, ORG),
        OrganizationPermissions(ORGANIZATION_MANAGE_INVITES)
    );
}

#[test]
fn project_row_decides_exactly() {
    let mut store = org_owned_project();
    store
        .insert_member(TeamMember {
            team_id: PROJECT_TEAM,
            user_id: ALICE,
            permissions: MemberPermissions::Project(ProjectPermissions(0b101)),
        })
        .unwrap();
    assert_eq!(store.effective_project_permissions(ALICE, PROJECT), ProjectPermissions(0b101));
}

#[test]
fn unaffiliated_user_has_empty_permissions() {
    let store = org_owned_project();
    assert_eq!(store.effective_project_permissions(ALICE, PROJECT), ProjectPermissions(0));
    assert_eq!(store.effective_organization_permissions(ALICE, ORG), OrganizationPermissions(0));
    // Absent project or organization: also empty.
    assert_eq!(store.effective_project_permissions(ALICE, ProjectId(999)), ProjectPermissions(0));
    assert_eq!(
        store.effective_organization_permissions(ALICE, OrganizationId(999)),
        OrganizationPermissions(0)
    );
}

#[test]
fn standalone_project_ignores_unrelated_org_rows() {
    let mut store = TeamStore::new();
    store.insert_team(Team { id: ORG_TEAM, owner: TeamOwner::Organization(ORG) }).unwrap();
    store.insert_organization(Organization { id: ORG, team_id: ORG_TEAM }).unwrap();
    store.insert_team(Team { id: PROJECT_TEAM, owner: TeamOwner::Project(PROJECT) }).unwrap();
    // The project belongs to no organization.
    store
        .insert_project(Project { id: PROJECT, team_id: PROJECT_TEAM, organization_id: None })
        .unwrap();
    store
        .insert_member(TeamMember {
            team_id: ORG_TEAM,
            user_id: ALICE,
            permissions: MemberPermissions::Organization(OrganizationPermissions(
                ORGANIZATION_MANAGE_INVITES,
            )),
        })
        .unwrap();
    assert_eq!(store.effective_project_permissions(ALICE, PROJECT), ProjectPermissions(0));
}

#[test]
fn membership_store_validates_rows() {
    let mut store = org_owned_project();
    // Kind mismatch: project-level flags in an organization team.
    assert_eq!(
        store.insert_member(TeamMember {
            team_id: ORG_TEAM,
            user_id: ALICE,
            permissions: MemberPermissions::Project(ProjectPermissions(1)),
        }),
        Err(OAuthError::ValidationError)
    );
    // Unknown team.
    assert_eq!(
        store.insert_member(TeamMember {
            team_id: TeamId(77),
            user_id: ALICE,
            permissions: MemberPermissions::Project(ProjectPermissions(1)),
        }),
        Err(OAuthError::ValidationError)
    );
    // At most one row per (team, user).
    store
        .insert_member(TeamMember {
            team_id: PROJECT_TEAM,
            user_id: ALICE,
            permissions: MemberPermissions::Project(ProjectPermissions(1)),
        })
        .unwrap();
    assert_eq!(
        store.insert_member(TeamMember {
            team_id: PROJECT_TEAM,
            user_id: ALICE,
            permissions: MemberPermissions::Project(ProjectPermissions(2)),
        }),
        Err(OAuthError::StoreError)
    );
    // Duplicate team id.
    assert_eq!(
        store.insert_team(Team { id: ORG_TEAM, owner: TeamOwner::Organization(ORG) }),
        Err(OAuthError::StoreError)
    );
    // A project whose team is owned by something else is rejected.
    assert_eq!(
        store.insert_project(Project {
            id: ProjectId(21),
            team_id: ORG_TEAM,
            organization_id: None,
        }),
        Err(OAuthError::ValidationError)
    );
}
