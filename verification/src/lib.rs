//! Authorization core: scoped OAuth client authorization and team-based
//! permission resolution.
//!
//! The crate is organised around two subsystems. The first is an OAuth2-style
//! client-authorization flow: a registered client sends a user to the flow
//! controller, the user accepts or rejects the requested scopes, and an
//! accepted flow yields a single-use authorization code that the token issuer
//! exchanges for a bearer token while recording the cumulative grant. The
//! second is a permission resolver that computes a user's effective
//! capabilities on a project or organization from team membership rows.
//!
//! Persistent state (clients, grants, team rows) and ephemeral flow state are
//! modelled as in-memory stores with explicit well-formedness invariants; the
//! surrounding application supplies durable storage, transport, secret
//! hashing and randomness at the boundary.

pub mod errors;
pub mod flows;
pub mod ids;
pub mod oauth_clients;
pub mod permissions;
pub mod scopes;
pub mod teams;
pub mod text;
pub mod time;
pub mod tokens;

pub use errors::OAuthError;
pub use flows::FlowStore;
pub use oauth_clients::ClientRegistry;
pub use teams::TeamStore;
pub use tokens::TokenResponse;
pub use ids::OAuthClientAuthorizationId;
pub use ids::OAuthClientId;
pub use ids::OAuthRedirectUriId;
pub use ids::OrganizationId;
pub use ids::ProjectId;
pub use ids::TeamId;
pub use ids::UserId;
pub use permissions::OrganizationPermissions;
pub use permissions::ProjectPermissions;
pub use scopes::Scopes;
