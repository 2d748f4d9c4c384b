//! Identifier newtypes for the entities of the authorization core.
//!
//! Every entity is addressed by a 64-bit identifier. Distinct newtypes keep a
//! client id from being confused with a user id or a grant id in a signature.

use vstd::prelude::*;

verus! {

/// Identifier of a user account.
#[derive(Clone, Copy, PartialEq, Eq, Structural, Debug, Hash)]
pub struct UserId(pub u64);

/// Identifier of a registered OAuth client.
#[derive(Clone, Copy, PartialEq, Eq, Structural, Debug, Hash)]
pub struct OAuthClientId(pub u64);

/// Identifier of a recorded grant (a client-user authorization row).
#[derive(Clone, Copy, PartialEq, Eq, Structural, Debug, Hash)]
pub struct OAuthClientAuthorizationId(pub u64);

/// Identifier of a registered redirect URI row.
#[derive(Clone, Copy, PartialEq, Eq, Structural, Debug, Hash)]
pub struct OAuthRedirectUriId(pub u64);

/// Identifier of a project.
#[derive(Clone, Copy, PartialEq, Eq, Structural, Debug, Hash)]
pub struct ProjectId(pub u64);

/// Identifier of an organization.
#[derive(Clone, Copy, PartialEq, Eq, Structural, Debug, Hash)]
pub struct OrganizationId(pub u64);

/// Identifier of a team.
#[derive(Clone, Copy, PartialEq, Eq, Structural, Debug, Hash)]
pub struct TeamId(pub u64);

} // verus!
