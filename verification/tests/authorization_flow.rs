use auth_core::errors::OAuthError;
use auth_core::flows::FlowStore;
use auth_core::flows::FLOW_EXPIRY_MILLIS;
use auth_core::ids::OAuthClientId;
use auth_core::ids::UserId;
use auth_core::oauth_clients::ClientRegistry;
use auth_core::oauth_clients::OAuthClient;
use auth_core::scopes::Scopes;
use auth_core::tokens::TOKEN_EXPIRES_IN_SECONDS;

const OWNER: UserId = UserId(1);
const ALICE: UserId = UserId(2);
const MALLORY: UserId = UserId(3);
const SECRET_HASH: &str = "hash-of-secret";
const CALLBACK: &str = "https://app.example/callback";

fn setup() -> (ClientRegistry, FlowStore, OAuthClientId) {
    let mut registry = ClientRegistry::new();
    let id = registry
        .register(
            String::from("demo app"),
            None,
            Scopes(0b0111),
            String::from(SECRET_HASH),
            vec![String::from(CALLBACK)],
            OWNER,
            0,
        )
        .unwrap();
    (registry, FlowStore::new(), id)
}

#[test]
fn begin_narrows_to_the_ceiling() {
    let (registry, mut flows, client_id) = setup();
    // Over-broad request: narrowed silently, never an error.
    let resp = flows
        .begin_at(&registry, client_id, Scopes(u64::MAX), None, None, ALICE, 51, 1_000)
        .unwrap();
    assert_eq!(resp.scopes, Scopes(0b0111));
    assert_eq!(resp.flow_id, 51);
    assert_eq!(resp.redirect_uri, CALLBACK);

    let narrower = flows
        .begin_at(&registry, client_id, Scopes(0b0101), None, None, ALICE, 52, 1_000)
        .unwrap();
    assert_eq!(narrower.scopes, Scopes(0b0101));

    let ceiling = Scopes(0b0111);
    for (fid, requested) in [(60u64, 0u64), (61, 0b1000), (62, 0b1101), (63, 1u64 << 63)] {
        let r = flows
            .begin_at(&registry, client_id, Scopes(requested), None, None, ALICE, fid, 1_000)
            .unwrap();
        assert!(r.scopes.is_subset_of(&ceiling));
    }
}

#[test]
fn begin_validates_client_and_redirect() {
    let (mut registry, mut flows, client_id) = setup();
    assert_eq!(
        flows
            .begin_at(&registry, OAuthClientId(999), Scopes(1), None, None, ALICE, 1, 0)
            .unwrap_err(),
        OAuthError::UnknownClient
    );
    assert_eq!(
        flows
            .begin_at(
                &registry,
                client_id,
                Scopes(1),
                Some(String::from("https://evil.example/cb")),
                None,
                ALICE,
                1,
                0,
            )
            .unwrap_err(),
        OAuthError::RedirectMismatch
    );
    // A supplied URI that is registered passes.
    assert!(flows
        .begin_at(
            &registry,
            client_id,
            Scopes(1),
            Some(String::from(CALLBACK)),
            None,
            ALICE,
            1,
            0,
        )
        .is_ok());
    // With two registered URIs, omitting the URI is ambiguous.
    OAuthClient::insert_redirect_uris(
        vec![auth_core::oauth_clients::OAuthRedirectUri {
            id: auth_core::ids::OAuthRedirectUriId(9_000),
            client_id,
            uri: String::from("https://second.example/cb"),
        }],
        &mut registry,
    )
    .unwrap();
    assert_eq!(
        flows.begin_at(&registry, client_id, Scopes(1), None, None, ALICE, 2, 0).unwrap_err(),
        OAuthError::RedirectMismatch
    );
    // A live flow identifier cannot be reused.
    assert_eq!(
        flows
            .begin_at(
                &registry,
                client_id,
                Scopes(1),
                Some(String::from(CALLBACK)),
                None,
                ALICE,
                1,
                0,
            )
            .unwrap_err(),
        OAuthError::StoreError
    );
}

#[test]
fn accept_guards_owner_and_expiry() {
    let (registry, mut flows, client_id) = setup();
    flows.begin_at(&registry, client_id, Scopes(1), None, None, ALICE, 7, 1_000).unwrap();

    assert_eq!(flows.accept_at(8, ALICE, 500, 1_001).unwrap_err(), OAuthError::FlowNotFound);
    assert_eq!(flows.accept_at(7, MALLORY, 500, 1_001).unwrap_err(), OAuthError::FlowOwnerMismatch);
    // At or past the expiry instant the flow is as good as absent.
    assert_eq!(
        flows.accept_at(7, ALICE, 500, 1_000 + FLOW_EXPIRY_MILLIS).unwrap_err(),
        OAuthError::FlowNotFound
    );

    let resp = flows.accept_at(7, ALICE, 500, 1_002).unwrap();
    assert_eq!(resp.code, 500);
    assert_eq!(resp.redirect_uri, CALLBACK);
    assert_eq!(resp.state, None);
}

#[test]
fn accept_refuses_a_code_already_in_use() {
    let (registry, mut flows, client_id) = setup();
    flows.begin_at(&registry, client_id, Scopes(1), None, None, ALICE, 7, 0).unwrap();
    flows.begin_at(&registry, client_id, Scopes(1), None, None, ALICE, 8, 0).unwrap();
    flows.accept_at(7, ALICE, 500, 1).unwrap();
    // The same freshly drawn code value cannot index two flows.
    assert_eq!(flows.accept_at(8, ALICE, 500, 1).unwrap_err(), OAuthError::StoreError);
    // A different code goes through.
    assert!(flows.accept_at(8, ALICE, 501, 1).is_ok());
}

#[test]
fn reject_guards_the_owner() {
    let (registry, mut flows, client_id) = setup();
    flows.begin_at(&registry, client_id, Scopes(1), None, None, ALICE, 7, 0).unwrap();
    assert_eq!(flows.reject_at(7, MALLORY, 1).unwrap_err(), OAuthError::FlowOwnerMismatch);
    assert_eq!(flows.reject_at(8, ALICE, 1).unwrap_err(), OAuthError::FlowNotFound);
    assert!(flows.reject_at(7, ALICE, 1).is_ok());
}

#[test]
fn exchange_refuses_another_clients_code() {
    let (mut registry, mut flows, client_id) = setup();
    let other_id = registry
        .register(
            String::from("other app"),
            None,
            Scopes(0b0111),
            String::from("other-hash"),
            vec![String::from("https://other.example/cb")],
            OWNER,
            0,
        )
        .unwrap();
    flows.begin_at(&registry, client_id, Scopes(1), None, None, ALICE, 7, 0).unwrap();
    flows.accept_at(7, ALICE, 500, 1).unwrap();
    // The other client authenticates correctly but presents a code that
    // belongs to a different client's flow.
    assert_eq!(
        flows
            .exchange_at(&mut registry, "authorization_code", 500, None, other_id, "other-hash", 1, 2)
            .unwrap_err(),
        OAuthError::InvalidGrant
    );
    // The rightful client can still exchange it.
    assert!(flows
        .exchange_at(&mut registry, "authorization_code", 500, None, client_id, SECRET_HASH, 1, 2)
        .is_ok());
}

#[test]
fn accept_echoes_the_state_value() {
    let (registry, mut flows, client_id) = setup();
    flows
        .begin_at(
            &registry,
            client_id,
            Scopes(1),
            None,
            Some(String::from("opaque-echo")),
            ALICE,
            7,
            0,
        )
        .unwrap();
    let resp = flows.accept_at(7, ALICE, 500, 1).unwrap();
    assert_eq!(resp.state, Some(String::from("opaque-echo")));
}

#[test]
fn decided_flows_cannot_be_decided_again() {
    let (registry, mut flows, client_id) = setup();
    flows.begin_at(&registry, client_id, Scopes(1), None, None, ALICE, 7, 0).unwrap();
    flows.begin_at(&registry, client_id, Scopes(1), None, None, ALICE, 8, 0).unwrap();

    // Reject, then accept: the flow is gone for deciding purposes.
    let uri = flows.reject_at(7, ALICE, 1).unwrap();
    assert_eq!(uri, CALLBACK);
    assert_eq!(flows.accept_at(7, ALICE, 500, 2).unwrap_err(), OAuthError::FlowNotFound);
    assert_eq!(flows.reject_at(7, ALICE, 2).unwrap_err(), OAuthError::FlowNotFound);

    // Accept, then reject: same.
    flows.accept_at(8, ALICE, 501, 1).unwrap();
    assert_eq!(flows.reject_at(8, ALICE, 2).unwrap_err(), OAuthError::FlowNotFound);
    assert_eq!(flows.accept_at(8, ALICE, 502, 2).unwrap_err(), OAuthError::FlowNotFound);
}

#[test]
fn exchange_validates_request_and_client() {
    let (mut registry, mut flows, client_id) = setup();
    flows.begin_at(&registry, client_id, Scopes(1), None, None, ALICE, 7, 0).unwrap();
    flows.accept_at(7, ALICE, 500, 1).unwrap();

    assert_eq!(
        flows
            .exchange_at(&mut registry, "password", 500, None, client_id, SECRET_HASH, 1, 2)
            .unwrap_err(),
        OAuthError::UnsupportedGrantType
    );
    assert_eq!(
        flows
            .exchange_at(
                &mut registry,
                "authorization_code",
                500,
                None,
                OAuthClientId(999),
                SECRET_HASH,
                1,
                2,
            )
            .unwrap_err(),
        OAuthError::InvalidClient
    );
    assert_eq!(
        flows
            .exchange_at(
                &mut registry,
                "authorization_code",
                500,
                None,
                client_id,
                "wrong-hash",
                1,
                2,
            )
            .unwrap_err(),
        OAuthError::InvalidClient
    );
    assert_eq!(
        flows
            .exchange_at(
                &mut registry,
                "authorization_code",
                500,
                Some("https://evil.example/cb"),
                client_id,
                SECRET_HASH,
                1,
                2,
            )
            .unwrap_err(),
        OAuthError::InvalidGrant
    );
    // An expired accepted flow fails the exchange.
    assert_eq!(
        flows
            .exchange_at(
                &mut registry,
                "authorization_code",
                500,
                None,
                client_id,
                SECRET_HASH,
                1,
                FLOW_EXPIRY_MILLIS,
            )
            .unwrap_err(),
        OAuthError::InvalidGrant
    );
}

#[test]
fn exchange_against_undecided_flow_fails() {
    let (mut registry, mut flows, client_id) = setup();
    flows.begin_at(&registry, client_id, Scopes(1), None, None, ALICE, 7, 0).unwrap();
    // No code was issued; guessing the flow identifier as a code fails.
    assert_eq!(
        flows
            .exchange_at(&mut registry, "authorization_code", 7, None, client_id, SECRET_HASH, 1, 1)
            .unwrap_err(),
        OAuthError::InvalidGrant
    );
}

#[test]
fn full_flow_grants_the_narrowed_scope_once() {
    let (mut registry, mut flows, client_id) = setup();
    let begun = flows
        .begin_at(&registry, client_id, Scopes(u64::MAX), None, None, ALICE, 7, 0)
        .unwrap();
    assert_eq!(begun.scopes, Scopes(0b0111));
    let accepted = flows.accept_at(7, ALICE, 500, 1).unwrap();

    let token = flows
        .exchange_at(
            &mut registry,
            "authorization_code",
            accepted.code,
            Some(CALLBACK),
            client_id,
            SECRET_HASH,
            424_242,
            2,
        )
        .unwrap();
    assert_eq!(token.scopes, begun.scopes);
    assert_eq!(token.access_token, 424_242);
    assert_eq!(token.expires_in, TOKEN_EXPIRES_IN_SECONDS);
    assert_eq!(token.token_type(), "Bearer");

    // The code was consumed: a second exchange with it fails.
    assert_eq!(
        flows
            .exchange_at(
                &mut registry,
                "authorization_code",
                accepted.code,
                Some(CALLBACK),
                client_id,
                SECRET_HASH,
                424_243,
                3,
            )
            .unwrap_err(),
        OAuthError::InvalidGrant
    );

    // The grant was recorded for (client, user) with the narrowed scopes.
    let grant = registry.get_authorization(client_id, ALICE).unwrap();
    assert_eq!(grant.scopes, Scopes(0b0111));
    assert_eq!(grant.user_id, ALICE);
    assert_eq!(grant.client_id, client_id);
}

#[test]
fn repeated_flows_union_the_grant() {
    let (mut registry, mut flows, client_id) = setup();
    flows.begin_at(&registry, client_id, Scopes(0b0001), None, None, ALICE, 7, 0).unwrap();
    flows.accept_at(7, ALICE, 500, 1).unwrap();
    flows
        .exchange_at(&mut registry, "authorization_code", 500, None, client_id, SECRET_HASH, 1, 2)
        .unwrap();
    let first = registry.get_authorization(client_id, ALICE).unwrap();
    assert_eq!(first.scopes, Scopes(0b0001));
    let first_id = first.id;
    let first_created = first.created;

    flows.begin_at(&registry, client_id, Scopes(0b0100), None, None, ALICE, 8, 3).unwrap();
    flows.accept_at(8, ALICE, 501, 4).unwrap();
    flows
        .exchange_at(&mut registry, "authorization_code", 501, None, client_id, SECRET_HASH, 2, 5)
        .unwrap();
    // One row per (client, user): scopes unioned, identity and creation
    // time of the first grant kept.
    assert_eq!(registry.authorizations.len(), 1);
    let merged = registry.get_authorization(client_id, ALICE).unwrap();
    assert_eq!(merged.scopes, Scopes(0b0101));
    assert_eq!(merged.id, first_id);
    assert_eq!(merged.created, first_created);
}

#[test]
fn removing_a_client_cascades_to_grants() {
    let (mut registry, mut flows, client_id) = setup();
    flows.begin_at(&registry, client_id, Scopes(1), None, None, ALICE, 7, 0).unwrap();
    flows.accept_at(7, ALICE, 500, 1).unwrap();
    flows
        .exchange_at(&mut registry, "authorization_code", 500, None, client_id, SECRET_HASH, 1, 2)
        .unwrap();
    assert!(registry.get_authorization(client_id, ALICE).is_some());

    OAuthClient::remove(client_id, &mut registry);
    // No client row, no redirect URI row, no grant row remains.
    assert!(OAuthClient::get(client_id, &registry).is_none());
    assert!(registry.clients.is_empty());
    assert!(registry.authorizations.is_empty());
    assert!(registry.get_authorization(client_id, ALICE).is_none());
}

#[test]
fn revoking_a_grant_removes_only_that_pair() {
    let (mut registry, mut flows, client_id) = setup();
    for (fid, user, code) in [(7u64, ALICE, 500u64), (8, MALLORY, 501)] {
        flows.begin_at(&registry, client_id, Scopes(1), None, None, user, fid, 0).unwrap();
        flows.accept_at(fid, user, code, 1).unwrap();
        flows
            .exchange_at(
                &mut registry,
                "authorization_code",
                code,
                None,
                client_id,
                SECRET_HASH,
                1,
                2,
            )
            .unwrap();
    }
    registry.revoke_authorization(client_id, ALICE);
    assert!(registry.get_authorization(client_id, ALICE).is_none());
    assert!(registry.get_authorization(client_id, MALLORY).is_some());
}

#[test]
fn redirect_targets_are_built_exactly() {
    let (registry, mut flows, client_id) = setup();
    flows
        .begin_at(
            &registry,
            client_id,
            Scopes(1),
            None,
            Some(String::from("xyz")),
            ALICE,
            7,
            0,
        )
        .unwrap();
    let accepted = flows.accept_at(7, ALICE, 1_048_576, 1).unwrap();
    assert_eq!(
        accepted.redirect_target(),
        "https://app.example/callback?code=1048576&state=xyz"
    );

    flows.begin_at(&registry, client_id, Scopes(1), None, None, ALICE, 8, 0).unwrap();
    let plain = flows.accept_at(8, ALICE, 0, 1).unwrap();
    assert_eq!(plain.redirect_target(), "https://app.example/callback?code=0");

    flows.begin_at(&registry, client_id, Scopes(1), None, None, ALICE, 9, 0).unwrap();
    let uri = flows.reject_at(9, ALICE, 1).unwrap();
    assert_eq!(
        auth_core::flows::reject_redirect_target(uri.as_str()),
        "https://app.example/callback?error=access_denied"
    );
}

#[test]
fn in_flight_flow_survives_uri_removal() {
    // The flow captured the redirect URI by value at creation; deleting
    // the registered URI row afterwards does not invalidate the flow.
    let (mut registry, mut flows, client_id) = setup();
    flows.begin_at(&registry, client_id, Scopes(1), None, None, ALICE, 7, 0).unwrap();
    let uri_id = OAuthClient::get(client_id, &registry).unwrap().redirect_uris[0].id;
    OAuthClient::remove_redirect_uris(&[uri_id], &mut registry);
    assert!(OAuthClient::get(client_id, &registry).unwrap().redirect_uris.is_empty());

    let accepted = flows.accept_at(7, ALICE, 500, 1).unwrap();
    assert_eq!(accepted.redirect_uri, CALLBACK);
    let token = flows
        .exchange_at(
            &mut registry,
            "authorization_code",
            500,
            Some(CALLBACK),
            client_id,
            SECRET_HASH,
            1,
            2,
        )
        .unwrap();
    assert_eq!(token.scopes, Scopes(1));
}

#[test]
fn wall_clock_entry_points_run_the_protocol() {
    let (mut registry, mut flows, client_id) = setup();
    // The registered client was created at time zero; the real clock is far
    // past that, so these calls exercise the expiry checks against a live
    // clock reading.
    let begun = flows
        .begin(&registry, client_id, Scopes(u64::MAX), None, None, ALICE, 7)
        .unwrap();
    assert_eq!(begun.scopes, Scopes(0b0111));
    let accepted = flows.accept(7, ALICE, 500).unwrap();
    let token = flows
        .exchange(
            &mut registry,
            "authorization_code",
            accepted.code,
            Some(CALLBACK),
            client_id,
            SECRET_HASH,
            99,
        )
        .unwrap();
    assert_eq!(token.scopes, Scopes(0b0111));
    assert!(flows.reject(7, ALICE).is_err());
}
