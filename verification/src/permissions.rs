//! Permission sets: action flags on a project or an organization.
//!
//! Projects and organizations have distinct flag vocabularies, held in two
//! distinct types; an explicit projection maps an organization-level set
//! into project-level terms where a project inherits its owning
//! organization's team. There is no implicit numeric cast between the two.

use vstd::prelude::*;

verus! {

/// Project action: upload a version.
pub const PROJECT_UPLOAD_VERSION: u64 = 1u64 << 0;

/// Project action: delete a version.
pub const PROJECT_DELETE_VERSION: u64 = 1u64 << 1;

/// Project action: edit the project's details.
pub const PROJECT_EDIT_DETAILS: u64 = 1u64 << 2;

/// Project action: edit the project's body text.
pub const PROJECT_EDIT_BODY: u64 = 1u64 << 3;

/// Project action: invite members to the project's team.
pub const PROJECT_MANAGE_INVITES: u64 = 1u64 << 4;

/// Project action: remove a member from the project's team.
pub const PROJECT_REMOVE_MEMBER: u64 = 1u64 << 5;

/// Project action: edit a team member's permissions.
pub const PROJECT_EDIT_MEMBER: u64 = 1u64 << 6;

/// Project action: delete the project.
pub const PROJECT_DELETE_PROJECT: u64 = 1u64 << 7;

/// Project action: view the project's analytics.
pub const PROJECT_VIEW_ANALYTICS: u64 = 1u64 << 8;

/// Project action: view the project's payouts.
pub const PROJECT_VIEW_PAYOUTS: u64 = 1u64 << 9;

/// Organization action: edit the organization's details.
pub const ORGANIZATION_EDIT_DETAILS: u64 = 1u64 << 0;

/// Organization action: invite members to the organization's team.
pub const ORGANIZATION_MANAGE_INVITES: u64 = 1u64 << 1;

/// Organization action: remove a member from the organization's team.
pub const ORGANIZATION_REMOVE_MEMBER: u64 = 1u64 << 2;

/// Organization action: edit a team member's permissions.
pub const ORGANIZATION_EDIT_MEMBER: u64 = 1u64 << 3;

/// Organization action: add a project to the organization.
pub const ORGANIZATION_ADD_PROJECT: u64 = 1u64 << 4;

/// Organization action: remove a project from the organization.
pub const ORGANIZATION_REMOVE_PROJECT: u64 = 1u64 << 5;

/// Organization action: delete the organization.
pub const ORGANIZATION_DELETE_ORGANIZATION: u64 = 1u64 << 6;

/// Organization action: edit the default permissions of new members.
pub const ORGANIZATION_EDIT_MEMBER_DEFAULT_PERMISSIONS: u64 = 1u64 << 7;

/// A set of project-level action flags.
#[derive(Clone, Copy, PartialEq, Eq, Structural, Debug, Hash)]
pub struct ProjectPermissions(pub u64);

/// A set of organization-level action flags.
#[derive(Clone, Copy, PartialEq, Eq, Structural, Debug, Hash)]
pub struct OrganizationPermissions(pub u64);

impl ProjectPermissions {
    /// The empty set: no action allowed.
    pub fn none() -> (r: ProjectPermissions)
        ensures
            r.0 == 0,
    {
        ProjectPermissions(0)
    }

    /// Whether every flag of `other` is also in `self`.
    pub open spec fn spec_contains_all(self, other: ProjectPermissions) -> bool {
        self.0 & other.0 == other.0
    }

    /// Whether every flag of `other` is also in `self`.
    pub fn contains_all(&self, other: &ProjectPermissions) -> (r: bool)
        ensures
            r == self.spec_contains_all(*other),
    {
        self.0 & other.0 == other.0
    }

    /// The flags present in `self` or in `other`.
    pub fn union(&self, other: &ProjectPermissions) -> (r: ProjectPermissions)
        ensures
            r.0 == self.0 | other.0,
    {
        ProjectPermissions(self.0 | other.0)
    }

    /// The flags present both in `self` and in `other`.
    pub fn intersect(&self, other: &ProjectPermissions) -> (r: ProjectPermissions)
        ensures
            r.0 == self.0 & other.0,
    {
        ProjectPermissions(self.0 & other.0)
    }
}

impl OrganizationPermissions {
    /// The empty set: no action allowed.
    pub fn none() -> (r: OrganizationPermissions)
        ensures
            r.0 == 0,
    {
        OrganizationPermissions(0)
    }

    /// Whether every flag of `other` is also in `self`.
    pub open spec fn spec_contains_all(self, other: OrganizationPermissions) -> bool {
        self.0 & other.0 == other.0
    }

    /// Whether every flag of `other` is also in `self`.
    pub fn contains_all(&self, other: &OrganizationPermissions) -> (r: bool)
        ensures
            r == self.spec_contains_all(*other),
    {
        self.0 & other.0 == other.0
    }

    /// The flags present in `self` or in `other`.
    pub fn union(&self, other: &OrganizationPermissions) -> (r: OrganizationPermissions)
        ensures
            r.0 == self.0 | other.0,
    {
        OrganizationPermissions(self.0 | other.0)
    }
}

/// The fixed mapping from an organization-level set into project-level
/// terms: the four team-management flags shared by both vocabularies carry
/// over, one by one; the flags that only make sense on an organization
/// (adding or removing projects, deleting the organization, editing default
/// member permissions) grant nothing on an individual project.
pub open spec fn spec_project_permissions_of(org: OrganizationPermissions) -> ProjectPermissions {
    ProjectPermissions(
        (if org.0 & ORGANIZATION_EDIT_DETAILS == ORGANIZATION_EDIT_DETAILS {
            PROJECT_EDIT_DETAILS
        } else {
            0
        }) | (if org.0 & ORGANIZATION_MANAGE_INVITES == ORGANIZATION_MANAGE_INVITES {
            PROJECT_MANAGE_INVITES
        } else {
            0
        }) | (if org.0 & ORGANIZATION_REMOVE_MEMBER == ORGANIZATION_REMOVE_MEMBER {
            PROJECT_REMOVE_MEMBER
        } else {
            0
        }) | (if org.0 & ORGANIZATION_EDIT_MEMBER == ORGANIZATION_EDIT_MEMBER {
            PROJECT_EDIT_MEMBER
        } else {
            0
        }),
    )
}

/// Projection of an organization-level permission set into project-level
/// terms, by the fixed mapping of `spec_project_permissions_of`.
pub fn project_permissions_of(org: &OrganizationPermissions) -> (r: ProjectPermissions)
    ensures
        r == spec_project_permissions_of(*org),
{
    let details: u64 = if org.0 & ORGANIZATION_EDIT_DETAILS == ORGANIZATION_EDIT_DETAILS {
        PROJECT_EDIT_DETAILS
    } else {
        0
    };
    let invites: u64 = if org.0 & ORGANIZATION_MANAGE_INVITES == ORGANIZATION_MANAGE_INVITES {
        PROJECT_MANAGE_INVITES
    } else {
        0
    };
    let removal: u64 = if org.0 & ORGANIZATION_REMOVE_MEMBER == ORGANIZATION_REMOVE_MEMBER {
        PROJECT_REMOVE_MEMBER
    } else {
        0
    };
    let editing: u64 = if org.0 & ORGANIZATION_EDIT_MEMBER == ORGANIZATION_EDIT_MEMBER {
        PROJECT_EDIT_MEMBER
    } else {
        0
    };
    ProjectPermissions(details | invites | removal | editing)
}

} // verus!
