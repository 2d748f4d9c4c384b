//! The error taxonomy of the authorization core.
//!
//! Authorization failures are deliberately coarse: a caller probing the token
//! endpoint cannot tell an unknown client id from a wrong secret, nor an
//! expired flow from one that never existed.

use vstd::prelude::*;

verus! {

/// An error of the authorization core.
#[derive(Clone, Copy, PartialEq, Eq, Structural, Debug)]
pub enum OAuthError {
    /// Malformed registration input, rejected at the boundary before any
    /// state changes.
    ValidationError,
    /// The presented client id names no registered client.
    UnknownClient,
    /// The redirect URI of the request does not match the client's
    /// registered URIs, or none was supplied and the choice is ambiguous.
    RedirectMismatch,
    /// The flow is absent, expired, or no longer awaiting a decision; the
    /// three cases are indistinguishable to the caller.
    FlowNotFound,
    /// The authenticated user is not the user who began the flow.
    FlowOwnerMismatch,
    /// The token request's grant type is not `authorization_code`.
    UnsupportedGrantType,
    /// Unknown client id or wrong secret; the two cases are
    /// indistinguishable to the caller.
    InvalidClient,
    /// The authorization code is wrong, already used, or tied to a different
    /// client or redirect URI.
    InvalidGrant,
    /// The backing store refused the operation: a freshly drawn identifier
    /// collided with one already in use.
    StoreError,
}

impl OAuthError {
    /// A stable machine-readable name for the error, as it appears in an
    /// error response body.
    pub fn code(&self) -> (r: &'static str)
        ensures
            r@ == self.spec_code(),
    {
        match self {
            OAuthError::ValidationError => "invalid_request",
            OAuthError::UnknownClient => "invalid_request",
            OAuthError::RedirectMismatch => "invalid_request",
            OAuthError::FlowNotFound => "invalid_request",
            OAuthError::FlowOwnerMismatch => "access_denied",
            OAuthError::UnsupportedGrantType => "unsupported_grant_type",
            OAuthError::InvalidClient => "invalid_client",
            OAuthError::InvalidGrant => "invalid_grant",
            OAuthError::StoreError => "server_error",
        }
    }

    /// The name `code` returns, as a sequence of characters.
    pub open spec fn spec_code(self) -> Seq<char> {
        match self {
            OAuthError::ValidationError => "invalid_request"@,
            OAuthError::UnknownClient => "invalid_request"@,
            OAuthError::RedirectMismatch => "invalid_request"@,
            OAuthError::FlowNotFound => "invalid_request"@,
            OAuthError::FlowOwnerMismatch => "access_denied"@,
            OAuthError::UnsupportedGrantType => "unsupported_grant_type"@,
            OAuthError::InvalidClient => "invalid_client"@,
            OAuthError::InvalidGrant => "invalid_grant"@,
            OAuthError::StoreError => "server_error"@,
        }
    }
}

} // verus!
