//! Teams, team members, and the permission resolver.
//!
//! A team is owned by exactly one project or one organization, never both. A
//! membership row links a user to a team and carries a permission set whose
//! kind matches the team's owner kind. The resolver computes a user's
//! effective permissions on a project with strict precedence: a row in the
//! project's own team is authoritative and replaces everything else, even
//! when it grants less than an organization-level row would; only a user
//! with no project-team row falls back to the owning organization's team,
//! whose organization-level set is projected into project-level terms; and
//! a user with neither row has no permissions at all. Nothing is ever
//! unioned across sources.

use vstd::prelude::*;

use crate::errors::OAuthError;
use crate::ids::OrganizationId;
use crate::ids::ProjectId;
use crate::ids::TeamId;
use crate::ids::UserId;
use crate::permissions::spec_project_permissions_of;
use crate::permissions::project_permissions_of;
use crate::permissions::OrganizationPermissions;
use crate::permissions::ProjectPermissions;

verus! {

/// The single owner of a team: a project or an organization.
#[derive(Clone, Copy, PartialEq, Eq, Structural, Debug)]
pub enum TeamOwner {
    Project(ProjectId),
    Organization(OrganizationId),
}

/// The membership container of one project or one organization.
#[derive(Clone, Copy, PartialEq, Eq, Structural, Debug)]
pub struct Team {
    pub id: TeamId,
    pub owner: TeamOwner,
}

/// The permission set a membership row carries; its kind matches the kind
/// of the team's owner.
#[derive(Clone, Copy, PartialEq, Eq, Structural, Debug)]
pub enum MemberPermissions {
    Project(ProjectPermissions),
    Organization(OrganizationPermissions),
}

/// A membership row: a user in a team, with a permission set. A user has at
/// most one row per team.
#[derive(Clone, Copy, PartialEq, Eq, Structural, Debug)]
pub struct TeamMember {
    pub team_id: TeamId,
    pub user_id: UserId,
    pub permissions: MemberPermissions,
}

/// A project: owns a team, and optionally belongs to an organization.
#[derive(Clone, Copy, PartialEq, Eq, Structural, Debug)]
pub struct Project {
    pub id: ProjectId,
    pub team_id: TeamId,
    pub organization_id: Option<OrganizationId>,
}

/// An organization: owns a team.
#[derive(Clone, Copy, PartialEq, Eq, Structural, Debug)]
pub struct Organization {
    pub id: OrganizationId,
    pub team_id: TeamId,
}

/// Whether a permission set's kind matches a team owner's kind.
pub open spec fn spec_kind_matches(permissions: MemberPermissions, owner: TeamOwner) -> bool {
    match (permissions, owner) {
        (MemberPermissions::Project(_), TeamOwner::Project(_)) => true,
        (MemberPermissions::Organization(_), TeamOwner::Organization(_)) => true,
        _ => false,
    }
}

/// The first team of `teams` with identifier `id`, if any.
pub open spec fn spec_find_team(teams: Seq<Team>, id: TeamId) -> Option<Team>
    decreases teams.len(),
{
    if teams.len() == 0 {
        None
    } else if teams[0].id == id {
        Some(teams[0])
    } else {
        spec_find_team(teams.drop_first(), id)
    }
}

/// The first project of `projects` with identifier `id`, if any.
pub open spec fn spec_find_project(projects: Seq<Project>, id: ProjectId) -> Option<Project>
    decreases projects.len(),
{
    if projects.len() == 0 {
        None
    } else if projects[0].id == id {
        Some(projects[0])
    } else {
        spec_find_project(projects.drop_first(), id)
    }
}

/// The first organization of `organizations` with identifier `id`, if any.
pub open spec fn spec_find_organization(
    organizations: Seq<Organization>,
    id: OrganizationId,
) -> Option<Organization>
    decreases organizations.len(),
{
    if organizations.len() == 0 {
        None
    } else if organizations[0].id == id {
        Some(organizations[0])
    } else {
        spec_find_organization(organizations.drop_first(), id)
    }
}

/// The first membership row of `members` for `(team_id, user_id)`, if any.
pub open spec fn spec_find_member(
    members: Seq<TeamMember>,
    team_id: TeamId,
    user_id: UserId,
) -> Option<TeamMember>
    decreases members.len(),
{
    if members.len() == 0 {
        None
    } else if members[0].team_id == team_id && members[0].user_id == user_id {
        Some(members[0])
    } else {
        spec_find_member(members.drop_first(), team_id, user_id)
    }
}

/// The in-memory model of the team membership store.
pub struct TeamStore {
    pub teams: Vec<Team>,
    pub members: Vec<TeamMember>,
    pub projects: Vec<Project>,
    pub organizations: Vec<Organization>,
}

impl TeamStore {
    /// The store's invariant: unique team, project and organization ids;
    /// at most one membership row per (team, user); each membership row in
    /// an existing team of matching kind; each project's and each
    /// organization's team existing and owned back by it; and a project's
    /// organization reference naming a stored organization.
    pub open spec fn wf(self) -> bool {
        &&& forall|i: int, j: int|
            0 <= i < j < self.teams@.len() ==> (#[trigger] self.teams@[i]).id != (
            #[trigger] self.teams@[j]).id
        &&& forall|i: int, j: int|
            0 <= i < j < self.projects@.len() ==> (#[trigger] self.projects@[i]).id != (
            #[trigger] self.projects@[j]).id
        &&& forall|i: int, j: int|
            0 <= i < j < self.organizations@.len() ==> (#[trigger] self.organizations@[i]).id != (
            #[trigger] self.organizations@[j]).id
        &&& forall|i: int, j: int|
            0 <= i < j < self.members@.len() ==> !((#[trigger] self.members@[i]).team_id == (
            #[trigger] self.members@[j]).team_id && self.members@[i].user_id
                == self.members@[j].user_id)
        &&& forall|i: int|
            0 <= i < self.members@.len() ==> match spec_find_team(
                self.teams@,
                (#[trigger] self.members@[i]).team_id,
            ) {
                Some(t) => spec_kind_matches(self.members@[i].permissions, t.owner),
                None => false,
            }
        &&& forall|i: int|
            0 <= i < self.projects@.len() ==> spec_find_team(
                self.teams@,
                (#[trigger] self.projects@[i]).team_id,
            ) == Some(
                Team {
                    id: self.projects@[i].team_id,
                    owner: TeamOwner::Project(self.projects@[i].id),
                },
            )
        &&& forall|i: int|
            0 <= i < self.organizations@.len() ==> spec_find_team(
                self.teams@,
                (#[trigger] self.organizations@[i]).team_id,
            ) == Some(
                Team {
                    id: self.organizations@[i].team_id,
                    owner: TeamOwner::Organization(self.organizations@[i].id),
                },
            )
        &&& forall|i: int|
            0 <= i < self.projects@.len() ==> match (#[trigger] self.projects@[i]).organization_id {
                Some(oid) => spec_find_organization(self.organizations@, oid) is Some,
                None => true,
            }
    }

    /// An empty store.
    pub fn new() -> (r: TeamStore)
        ensures
            r.wf(),
            r.teams@ == Seq::<Team>::empty(),
            r.members@ == Seq::<TeamMember>::empty(),
            r.projects@ == Seq::<Project>::empty(),
            r.organizations@ == Seq::<Organization>::empty(),
    {
        TeamStore {
            teams: Vec::new(),
            members: Vec::new(),
            projects: Vec::new(),
            organizations: Vec::new(),
        }
    }
}

/// The effective permission set of `user_id` on project `project_id` in
/// `store`: the project-team row's set exactly, if one exists; else the
/// owning organization's team row's set projected into project terms, if
/// the project belongs to an organization and such a row exists; else
/// empty. Most specific row wins, by full replacement, never by union.
pub open spec fn spec_effective_project_permissions(
    store: TeamStore,
    user_id: UserId,
    project_id: ProjectId,
) -> ProjectPermissions {
    match spec_find_project(store.projects@, project_id) {
        None => ProjectPermissions(0),
        Some(p) => match spec_find_member(store.members@, p.team_id, user_id) {
            Some(m) => match m.permissions {
                MemberPermissions::Project(pp) => pp,
                MemberPermissions::Organization(_) => ProjectPermissions(0),
            },
            None => match p.organization_id {
                None => ProjectPermissions(0),
                Some(oid) => match spec_find_organization(store.organizations@, oid) {
                    None => ProjectPermissions(0),
                    Some(o) => match spec_find_member(store.members@, o.team_id, user_id) {
                        None => ProjectPermissions(0),
                        Some(m) => match m.permissions {
                            MemberPermissions::Organization(op) => spec_project_permissions_of(op),
                            MemberPermissions::Project(_) => ProjectPermissions(0),
                        },
                    },
                },
            },
        },
    }
}

/// The effective permission set of `user_id` in organization
/// `organization_id`: the organization-team row's set if one exists, else
/// empty.
pub open spec fn spec_effective_organization_permissions(
    store: TeamStore,
    user_id: UserId,
    organization_id: OrganizationId,
) -> OrganizationPermissions {
    match spec_find_organization(store.organizations@, organization_id) {
        None => OrganizationPermissions(0),
        Some(o) => match spec_find_member(store.members@, o.team_id, user_id) {
            None => OrganizationPermissions(0),
            Some(m) => match m.permissions {
                MemberPermissions::Organization(op) => op,
                MemberPermissions::Project(_) => OrganizationPermissions(0),
            },
        },
    }
}

/// The permission set of the first membership row for `(team_id,
/// user_id)`, if any.
fn find_member_permissions(
    members: &Vec<TeamMember>,
    team_id: TeamId,
    user_id: UserId,
) -> (r: Option<MemberPermissions>)
    ensures
        r == match spec_find_member(members@, team_id, user_id) {
            Some(m) => Some(m.permissions),
            None => None::<MemberPermissions>,
        },
{
    let ghost rows = members@;
    let n = members.len();
    let mut i: usize = 0;
    assert(rows.skip(0) =~= rows);
    while i < n
        invariant
            0 <= i <= n,
            n == rows.len(),
            rows == members@,
            spec_find_member(rows, team_id, user_id) == spec_find_member(
                rows.skip(i as int),
                team_id,
                user_id,
            ),
        decreases n - i,
    {
        assert(rows.skip(i as int).drop_first() =~= rows.skip(i as int + 1));
        assert(rows.skip(i as int)[0] == rows[i as int]);
        if members[i].team_id.0 == team_id.0 && members[i].user_id.0 == user_id.0 {
            return Some(members[i].permissions);
        }
        i = i + 1;
    }
    assert(rows.skip(n as int) =~= Seq::<TeamMember>::empty());
    None
}

/// The first project with identifier `id`, if any.
fn find_project(projects: &Vec<Project>, id: ProjectId) -> (r: Option<Project>)
    ensures
        r == spec_find_project(projects@, id),
{
    let ghost rows = projects@;
    let n = projects.len();
    let mut i: usize = 0;
    assert(rows.skip(0) =~= rows);
    while i < n
        invariant
            0 <= i <= n,
            n == rows.len(),
            rows == projects@,
            spec_find_project(rows, id) == spec_find_project(rows.skip(i as int), id),
        decreases n - i,
    {
        assert(rows.skip(i as int).drop_first() =~= rows.skip(i as int + 1));
        assert(rows.skip(i as int)[0] == rows[i as int]);
        if projects[i].id.0 == id.0 {
            return Some(projects[i]);
        }
        i = i + 1;
    }
    assert(rows.skip(n as int) =~= Seq::<Project>::empty());
    None
}

/// The first organization with identifier `id`, if any.
fn find_organization(organizations: &Vec<Organization>, id: OrganizationId) -> (r: Option<
    Organization,
>)
    ensures
        r == spec_find_organization(organizations@, id),
{
    let ghost rows = organizations@;
    let n = organizations.len();
    let mut i: usize = 0;
    assert(rows.skip(0) =~= rows);
    while i < n
        invariant
            0 <= i <= n,
            n == rows.len(),
            rows == organizations@,
            spec_find_organization(rows, id) == spec_find_organization(rows.skip(i as int), id),
        decreases n - i,
    {
        assert(rows.skip(i as int).drop_first() =~= rows.skip(i as int + 1));
        assert(rows.skip(i as int)[0] == rows[i as int]);
        if organizations[i].id.0 == id.0 {
            return Some(organizations[i]);
        }
        i = i + 1;
    }
    assert(rows.skip(n as int) =~= Seq::<Organization>::empty());
    None
}

/// The first team with identifier `id`, if any.
fn find_team(teams: &Vec<Team>, id: TeamId) -> (r: Option<Team>)
    ensures
        r == spec_find_team(teams@, id),
{
    let ghost rows = teams@;
    let n = teams.len();
    let mut i: usize = 0;
    assert(rows.skip(0) =~= rows);
    while i < n
        invariant
            0 <= i <= n,
            n == rows.len(),
            rows == teams@,
            spec_find_team(rows, id) == spec_find_team(rows.skip(i as int), id),
        decreases n - i,
    {
        assert(rows.skip(i as int).drop_first() =~= rows.skip(i as int + 1));
        assert(rows.skip(i as int)[0] == rows[i as int]);
        if teams[i].id.0 == id.0 {
            return Some(teams[i]);
        }
        i = i + 1;
    }
    assert(rows.skip(n as int) =~= Seq::<Team>::empty());
    None
}

impl TeamStore {
    /// The effective permission set of `user_id` on project `project_id`,
    /// by the strict precedence of `spec_effective_project_permissions`.
    pub fn effective_project_permissions(
        &self,
        user_id: UserId,
        project_id: ProjectId,
    ) -> (r: ProjectPermissions)
        ensures
            r == spec_effective_project_permissions(*self, user_id, project_id),
    {
        let p = match find_project(&self.projects, project_id) {
            Some(p) => p,
            None => {
                return ProjectPermissions(0);
            },
        };
        match find_member_permissions(&self.members, p.team_id, user_id) {
            Some(MemberPermissions::Project(pp)) => pp,
            Some(MemberPermissions::Organization(_)) => ProjectPermissions(0),
            None => {
                let oid = match p.organization_id {
                    Some(oid) => oid,
                    None => {
                        return ProjectPermissions(0);
                    },
                };
                let o = match find_organization(&self.organizations, oid) {
                    Some(o) => o,
                    None => {
                        return ProjectPermissions(0);
                    },
                };
                match find_member_permissions(&self.members, o.team_id, user_id) {
                    Some(MemberPermissions::Organization(op)) => project_permissions_of(&op),
                    Some(MemberPermissions::Project(_)) => ProjectPermissions(0),
                    None => ProjectPermissions(0),
                }
            },
        }
    }

    /// The effective permission set of `user_id` in organization
    /// `organization_id`: the organization-team row's set if present, else
    /// empty.
    pub fn effective_organization_permissions(
        &self,
        user_id: UserId,
        organization_id: OrganizationId,
    ) -> (r: OrganizationPermissions)
        ensures
            r == spec_effective_organization_permissions(*self, user_id, organization_id),
    {
        let o = match find_organization(&self.organizations, organization_id) {
            Some(o) => o,
            None => {
                return OrganizationPermissions(0);
            },
        };
        match find_member_permissions(&self.members, o.team_id, user_id) {
            Some(MemberPermissions::Organization(op)) => op,
            Some(MemberPermissions::Project(_)) => OrganizationPermissions(0),
            None => OrganizationPermissions(0),
        }
    }

    /// Stores a team. Fails with `StoreError` if the id is taken; nothing
    /// changes on failure.
    pub fn insert_team(&mut self, team: Team) -> (r: Result<(), OAuthError>)
        requires
            old(self).wf(),
        ensures
            final(self).wf(),
            match r {
                Ok(()) => {
                    &&& spec_find_team(old(self).teams@, team.id) is None
                    &&& final(self).teams@ == old(self).teams@.push(team)
                    &&& final(self).members@ == old(self).members@
                    &&& final(self).projects@ == old(self).projects@
                    &&& final(self).organizations@ == old(self).organizations@
                },
                Err(OAuthError::StoreError) => spec_find_team(old(self).teams@, team.id) is Some
                    && *final(self) == *old(self),
                Err(_) => false,
            },
    {
        if find_team(&self.teams, team.id).is_some() {
            return Err(OAuthError::StoreError);
        }
        let ghost pre = *self;
        self.teams.push(team);
        proof {
            lemma_find_team_props(pre.teams@, team.id);
            assert forall|i: int|
                0 <= i < self.members@.len() implies match spec_find_team(
                self.teams@,
                (#[trigger] self.members@[i]).team_id,
            ) {
                Some(t) => spec_kind_matches(self.members@[i].permissions, t.owner),
                None => false,
            } by {
                lemma_find_team_push(pre.teams@, team, self.members@[i].team_id);
            }
            assert forall|i: int|
                0 <= i < self.projects@.len() implies spec_find_team(
                self.teams@,
                (#[trigger] self.projects@[i]).team_id,
            ) == Some(
                Team { id: self.projects@[i].team_id, owner: TeamOwner::Project(self.projects@[i].id) },
            ) by {
                lemma_find_team_push(pre.teams@, team, self.projects@[i].team_id);
            }
            assert forall|i: int|
                0 <= i < self.organizations@.len() implies spec_find_team(
                self.teams@,
                (#[trigger] self.organizations@[i]).team_id,
            ) == Some(
                Team {
                    id: self.organizations@[i].team_id,
                    owner: TeamOwner::Organization(self.organizations@[i].id),
                },
            ) by {
                lemma_find_team_push(pre.teams@, team, self.organizations@[i].team_id);
            }
        }
        Ok(())
    }

    /// Stores a project. Fails with `StoreError` if the id is taken, and
    /// with `ValidationError` unless its team is stored, owned back by the
    /// project, and its organization reference (if any) names a stored
    /// organization; nothing changes on failure.
    pub fn insert_project(&mut self, project: Project) -> (r: Result<(), OAuthError>)
        requires
            old(self).wf(),
        ensures
            final(self).wf(),
            match r {
                Ok(()) => {
                    &&& spec_find_project(old(self).projects@, project.id) is None
                    &&& final(self).projects@ == old(self).projects@.push(project)
                    &&& final(self).teams@ == old(self).teams@
                    &&& final(self).members@ == old(self).members@
                    &&& final(self).organizations@ == old(self).organizations@
                },
                Err(OAuthError::StoreError) => spec_find_project(
                    old(self).projects@,
                    project.id,
                ) is Some && *final(self) == *old(self),
                Err(OAuthError::ValidationError) => {
                    &&& spec_find_project(old(self).projects@, project.id) is None
                    &&& (spec_find_team(old(self).teams@, project.team_id) != Some(
                        Team { id: project.team_id, owner: TeamOwner::Project(project.id) },
                    ) || (project.organization_id matches Some(oid) && spec_find_organization(
                        old(self).organizations@,
                        oid,
                    ) is None))
                    &&& *final(self) == *old(self)
                },
                Err(_) => false,
            },
    {
        if find_project(&self.projects, project.id).is_some() {
            return Err(OAuthError::StoreError);
        }
        match find_team(&self.teams, project.team_id) {
            Some(t) => {
                if !(t.id.0 == project.team_id.0 && match t.owner {
                    TeamOwner::Project(pid) => pid.0 == project.id.0,
                    TeamOwner::Organization(_) => false,
                }) {
                    return Err(OAuthError::ValidationError);
                }
            },
            None => {
                return Err(OAuthError::ValidationError);
            },
        }
        match project.organization_id {
            Some(oid) => {
                if find_organization(&self.organizations, oid).is_none() {
                    return Err(OAuthError::ValidationError);
                }
            },
            None => {},
        }
        let ghost pre = *self;
        self.projects.push(project);
        proof {
            lemma_find_project_props(pre.projects@, project.id);
        }
        Ok(())
    }

    /// Stores an organization. Fails with `StoreError` if the id is taken,
    /// and with `ValidationError` unless its team is stored and owned back
    /// by the organization; nothing changes on failure.
    pub fn insert_organization(&mut self, organization: Organization) -> (r: Result<
        (),
        OAuthError,
    >)
        requires
            old(self).wf(),
        ensures
            final(self).wf(),
            match r {
                Ok(()) => {
                    &&& spec_find_organization(
                        old(self).organizations@,
                        organization.id,
                    ) is None
                    &&& final(self).organizations@ == old(self).organizations@.push(organization)
                    &&& final(self).teams@ == old(self).teams@
                    &&& final(self).members@ == old(self).members@
                    &&& final(self).projects@ == old(self).projects@
                },
                Err(OAuthError::StoreError) => spec_find_organization(
                    old(self).organizations@,
                    organization.id,
                ) is Some && *final(self) == *old(self),
                Err(OAuthError::ValidationError) => {
                    &&& spec_find_organization(
                        old(self).organizations@,
                        organization.id,
                    ) is None
                    &&& spec_find_team(old(self).teams@, organization.team_id) != Some(
                        Team {
                            id: organization.team_id,
                            owner: TeamOwner::Organization(organization.id),
                        },
                    )
                    &&& *final(self) == *old(self)
                },
                Err(_) => false,
            },
    {
        if find_organization(&self.organizations, organization.id).is_some() {
            return Err(OAuthError::StoreError);
        }
        match find_team(&self.teams, organization.team_id) {
            Some(t) => {
                if !(t.id.0 == organization.team_id.0 && match t.owner {
                    TeamOwner::Organization(oid) => oid.0 == organization.id.0,
                    TeamOwner::Project(_) => false,
                }) {
                    return Err(OAuthError::ValidationError);
                }
            },
            None => {
                return Err(OAuthError::ValidationError);
            },
        }
        let ghost pre = *self;
        self.organizations.push(organization);
        proof {
            lemma_find_organization_props(pre.organizations@, organization.id);
            assert forall|i: int|
                0 <= i < self.projects@.len() implies match (
            #[trigger] self.projects@[i]).organization_id {
                Some(oid) => spec_find_organization(self.organizations@, oid) is Some,
                None => true,
            } by {
                match self.projects@[i].organization_id {
                    Some(oid) => {
                        lemma_find_organization_push(pre.organizations@, organization, oid);
                    },
                    None => {},
                }
            }
        }
        Ok(())
    }

    /// Stores a membership row. Fails with `StoreError` if the user
    /// already has a row in the team, and with `ValidationError` unless
    /// the team is stored and the row's permission kind matches the team's
    /// owner kind; nothing changes on failure.
    pub fn insert_member(&mut self, member: TeamMember) -> (r: Result<(), OAuthError>)
        requires
            old(self).wf(),
        ensures
            final(self).wf(),
            match r {
                Ok(()) => {
                    &&& spec_find_member(
                        old(self).members@,
                        member.team_id,
                        member.user_id,
                    ) is None
                    &&& final(self).members@ == old(self).members@.push(member)
                    &&& final(self).teams@ == old(self).teams@
                    &&& final(self).projects@ == old(self).projects@
                    &&& final(self).organizations@ == old(self).organizations@
                },
                Err(OAuthError::StoreError) => spec_find_member(
                    old(self).members@,
                    member.team_id,
                    member.user_id,
                ) is Some && *final(self) == *old(self),
                Err(OAuthError::ValidationError) => {
                    &&& spec_find_member(
                        old(self).members@,
                        member.team_id,
                        member.user_id,
                    ) is None
                    &&& match spec_find_team(old(self).teams@, member.team_id) {
                        Some(t) => !spec_kind_matches(member.permissions, t.owner),
                        None => true,
                    }
                    &&& *final(self) == *old(self)
                },
                Err(_) => false,
            },
    {
        if find_member_permissions(&self.members, member.team_id, member.user_id).is_some() {
            return Err(OAuthError::StoreError);
        }
        match find_team(&self.teams, member.team_id) {
            Some(t) => {
                let matches_kind = match (&member.permissions, &t.owner) {
                    (MemberPermissions::Project(_), TeamOwner::Project(_)) => true,
                    (MemberPermissions::Organization(_), TeamOwner::Organization(_)) => true,
                    _ => false,
                };
                if !matches_kind {
                    return Err(OAuthError::ValidationError);
                }
            },
            None => {
                return Err(OAuthError::ValidationError);
            },
        }
        let ghost pre = *self;
        self.members.push(member);
        proof {
            lemma_find_member_props(pre.members@, member.team_id, member.user_id);
        }
        Ok(())
    }
}

/// A missed team lookup means no row carries the id.
pub proof fn lemma_find_team_props(teams: Seq<Team>, id: TeamId)
    ensures
        spec_find_team(teams, id) is None ==> forall|i: int|
            0 <= i < teams.len() ==> (#[trigger] teams[i]).id != id,
    decreases teams.len(),
{
    if teams.len() > 0 {
        lemma_find_team_props(teams.drop_first(), id);
        if spec_find_team(teams, id) is None {
            assert forall|i: int|
                0 <= i < teams.len() implies (#[trigger] teams[i]).id != id by {
                if i > 0 {
                    assert(teams.drop_first()[i - 1] == teams[i]);
                }
            }
        }
    }
}

/// A missed project lookup means no row carries the id.
pub proof fn lemma_find_project_props(projects: Seq<Project>, id: ProjectId)
    ensures
        spec_find_project(projects, id) is None ==> forall|i: int|
            0 <= i < projects.len() ==> (#[trigger] projects[i]).id != id,
    decreases projects.len(),
{
    if projects.len() > 0 {
        lemma_find_project_props(projects.drop_first(), id);
        if spec_find_project(projects, id) is None {
            assert forall|i: int|
                0 <= i < projects.len() implies (#[trigger] projects[i]).id != id by {
                if i > 0 {
                    assert(projects.drop_first()[i - 1] == projects[i]);
                }
            }
        }
    }
}

/// A missed organization lookup means no row carries the id.
pub proof fn lemma_find_organization_props(organizations: Seq<Organization>, id: OrganizationId)
    ensures
        spec_find_organization(organizations, id) is None ==> forall|i: int|
            0 <= i < organizations.len() ==> (#[trigger] organizations[i]).id != id,
    decreases organizations.len(),
{
    if organizations.len() > 0 {
        lemma_find_organization_props(organizations.drop_first(), id);
        if spec_find_organization(organizations, id) is None {
            assert forall|i: int|
                0 <= i < organizations.len() implies (#[trigger] organizations[i]).id != id by {
                if i > 0 {
                    assert(organizations.drop_first()[i - 1] == organizations[i]);
                }
            }
        }
    }
}

/// A missed membership lookup means no row carries the pair.
pub proof fn lemma_find_member_props(members: Seq<TeamMember>, team_id: TeamId, user_id: UserId)
    ensures
        spec_find_member(members, team_id, user_id) is None ==> forall|i: int|
            0 <= i < members.len() ==> !((#[trigger] members[i]).team_id == team_id
                && members[i].user_id == user_id),
    decreases members.len(),
{
    if members.len() > 0 {
        lemma_find_member_props(members.drop_first(), team_id, user_id);
        if spec_find_member(members, team_id, user_id) is None {
            assert forall|i: int|
                0 <= i < members.len() implies !((#[trigger] members[i]).team_id == team_id
                && members[i].user_id == user_id) by {
                if i > 0 {
                    assert(members.drop_first()[i - 1] == members[i]);
                }
            }
        }
    }
}

/// Appending a team leaves every earlier lookup untouched and makes the
/// new team's id findable.
pub proof fn lemma_find_team_push(teams: Seq<Team>, t: Team, id: TeamId)
    ensures
        spec_find_team(teams.push(t), id) == (if spec_find_team(teams, id) is Some {
            spec_find_team(teams, id)
        } else if t.id == id {
            Some(t)
        } else {
            None
        }),
    decreases teams.len(),
{
    if teams.len() == 0 {
        assert(teams.push(t).len() == 1);
        assert(teams.push(t)[0] == t);
        assert(teams.push(t).drop_first() =~= Seq::<Team>::empty());
        if t.id != id {
            assert(spec_find_team(teams.push(t), id) == spec_find_team(Seq::<Team>::empty(), id));
        }
    } else {
        assert(teams.push(t)[0] == teams[0]);
        assert(teams.push(t).drop_first() =~= teams.drop_first().push(t));
        lemma_find_team_push(teams.drop_first(), t, id);
        if teams[0].id == id {
            assert(spec_find_team(teams, id) == Some(teams[0]));
            assert(spec_find_team(teams.push(t), id) == Some(teams[0]));
        } else {
            assert(spec_find_team(teams.push(t), id) == spec_find_team(
                teams.drop_first().push(t),
                id,
            ));
            assert(spec_find_team(teams, id) == spec_find_team(teams.drop_first(), id));
        }
    }
}

/// Appending an organization leaves every earlier lookup untouched and
/// makes the new organization's id findable.
pub proof fn lemma_find_organization_push(
    organizations: Seq<Organization>,
    o: Organization,
    id: OrganizationId,
)
    ensures
        spec_find_organization(organizations.push(o), id) == (if spec_find_organization(
            organizations,
            id,
        ) is Some {
            spec_find_organization(organizations, id)
        } else if o.id == id {
            Some(o)
        } else {
            None
        }),
    decreases organizations.len(),
{
    if organizations.len() == 0 {
        assert(organizations.push(o).len() == 1);
        assert(organizations.push(o)[0] == o);
        assert(organizations.push(o).drop_first() =~= Seq::<Organization>::empty());
        if o.id != id {
            assert(spec_find_organization(organizations.push(o), id) == spec_find_organization(
                Seq::<Organization>::empty(),
                id,
            ));
        }
    } else {
        assert(organizations.push(o)[0] == organizations[0]);
        assert(organizations.push(o).drop_first() =~= organizations.drop_first().push(o));
        lemma_find_organization_push(organizations.drop_first(), o, id);
        if organizations[0].id == id {
            assert(spec_find_organization(organizations, id) == Some(organizations[0]));
            assert(spec_find_organization(organizations.push(o), id) == Some(organizations[0]));
        } else {
            assert(spec_find_organization(organizations.push(o), id) == spec_find_organization(
                organizations.drop_first().push(o),
                id,
            ));
            assert(spec_find_organization(organizations, id) == spec_find_organization(
                organizations.drop_first(),
                id,
            ));
        }
    }
}

/// A row in the project's own team is authoritative: whatever
/// organization-level rows exist, the effective permissions on the project
/// are that row's set, exactly — even the empty set.
pub proof fn lemma_project_row_is_authoritative(
    store: TeamStore,
    user_id: UserId,
    project_id: ProjectId,
    granted: ProjectPermissions,
)
    requires
        ({
            &&& spec_find_project(store.projects@, project_id) matches Some(p)
            &&& spec_find_member(store.members@, p.team_id, user_id) matches Some(m)
            &&& m.permissions == MemberPermissions::Project(granted)
        }),
    ensures
        spec_effective_project_permissions(store, user_id, project_id) == granted,
{
}

/// A user with no row in the project's team falls back to the owning
/// organization's team: the effective permissions are that row's set
/// projected into project-level terms.
pub proof fn lemma_organization_row_is_fallback(
    store: TeamStore,
    user_id: UserId,
    project_id: ProjectId,
    granted: OrganizationPermissions,
)
    requires
        ({
            &&& spec_find_project(store.projects@, project_id) matches Some(p)
            &&& spec_find_member(store.members@, p.team_id, user_id) is None
            &&& p.organization_id matches Some(oid)
            &&& spec_find_organization(store.organizations@, oid) matches Some(o)
            &&& spec_find_member(store.members@, o.team_id, user_id) matches Some(m)
            &&& m.permissions == MemberPermissions::Organization(granted)
        }),
    ensures
        spec_effective_project_permissions(store, user_id, project_id)
            == spec_project_permissions_of(granted),
{
}

/// A user with no row in the project's team and none in an owning
/// organization's team has no permissions on the project at all.
pub proof fn lemma_unaffiliated_user_has_no_permissions(
    store: TeamStore,
    user_id: UserId,
    project_id: ProjectId,
)
    requires
        ({
            &&& spec_find_project(store.projects@, project_id) matches Some(p)
            &&& spec_find_member(store.members@, p.team_id, user_id) is None
            &&& match p.organization_id {
                None => true,
                Some(oid) => match spec_find_organization(store.organizations@, oid) {
                    None => true,
                    Some(o) => spec_find_member(store.members@, o.team_id, user_id) is None,
                },
            }
        }),
    ensures
        spec_effective_project_permissions(store, user_id, project_id) == ProjectPermissions(0),
{
}

} // verus!
