use auth_core::errors::OAuthError;
use auth_core::ids::OAuthClientId;
use auth_core::ids::OAuthRedirectUriId;
use auth_core::ids::UserId;
use auth_core::oauth_clients::ClientQueryResult;
use auth_core::oauth_clients::ClientRegistry;
use auth_core::oauth_clients::OAuthClient;
use auth_core::oauth_clients::OAuthRedirectUri;
use auth_core::scopes::Scopes;
use auth_core::text::is_absolute_uri;

fn registry_with_client() -> (ClientRegistry, OAuthClientId) {
    let mut registry = ClientRegistry::new();
    let id = registry
        .register(
            String::from("demo app"),
            None,
            Scopes(0b1111),
            String::from("hash-of-secret"),
            vec![String::from("https://app.example/callback")],
            UserId(7),
            1_000,
        )
        .unwrap();
    (registry, id)
}

#[test]
fn error_codes_are_non_distinguishing() {
    // One generic code covers absent clients, bad redirects and absent
    // flows alike; only grant-type, client and grant problems have codes
    // of their own.
    assert_eq!(OAuthError::ValidationError.code(), "invalid_request");
    assert_eq!(OAuthError::UnknownClient.code(), "invalid_request");
    assert_eq!(OAuthError::RedirectMismatch.code(), "invalid_request");
    assert_eq!(OAuthError::FlowNotFound.code(), "invalid_request");
    assert_eq!(OAuthError::FlowOwnerMismatch.code(), "access_denied");
    assert_eq!(OAuthError::UnsupportedGrantType.code(), "unsupported_grant_type");
    assert_eq!(OAuthError::InvalidClient.code(), "invalid_client");
    assert_eq!(OAuthError::InvalidGrant.code(), "invalid_grant");
    assert_eq!(OAuthError::StoreError.code(), "server_error");
}

#[test]
fn absolute_uri_validation() {
    assert!(is_absolute_uri("https://app.example/callback"));
    assert!(is_absolute_uri("custom+scheme-1.2://x"));
    assert!(!is_absolute_uri(""));
    assert!(!is_absolute_uri("no-scheme"));
    assert!(!is_absolute_uri("://missing-scheme"));
    assert!(!is_absolute_uri("1https://digit-first"));
    assert!(!is_absolute_uri("https://"));
    assert!(!is_absolute_uri("https:/one-slash"));
    assert!(!is_absolute_uri("bad scheme://x"));
}

#[test]
fn register_stores_the_client() {
    let (registry, id) = registry_with_client();
    let client = OAuthClient::get(id, &registry).unwrap();
    assert_eq!(client.name, "demo app");
    assert_eq!(client.max_scopes, Scopes(0b1111));
    assert_eq!(client.secret_hash, "hash-of-secret");
    assert_eq!(client.created, 1_000);
    assert_eq!(client.created_by, UserId(7));
    assert_eq!(client.redirect_uris.len(), 1);
    assert_eq!(client.redirect_uris[0].uri, "https://app.example/callback");
    assert_eq!(client.redirect_uris[0].client_id, id);
    assert!(OAuthClient::get(OAuthClientId(id.0 + 1), &registry).is_none());
}

#[test]
fn register_rejects_missing_or_malformed_uris() {
    let mut registry = ClientRegistry::new();
    let no_uris = registry.register(
        String::from("a"),
        None,
        Scopes(1),
        String::from("h"),
        vec![],
        UserId(1),
        0,
    );
    assert_eq!(no_uris, Err(OAuthError::ValidationError));

    let relative = registry.register(
        String::from("a"),
        None,
        Scopes(1),
        String::from("h"),
        vec![String::from("not-a-uri")],
        UserId(1),
        0,
    );
    assert_eq!(relative, Err(OAuthError::ValidationError));

    let duplicated = registry.register(
        String::from("a"),
        None,
        Scopes(1),
        String::from("h"),
        vec![String::from("https://x.example/cb"), String::from("https://x.example/cb")],
        UserId(1),
        0,
    );
    assert_eq!(duplicated, Err(OAuthError::ValidationError));
    assert!(registry.clients.is_empty());
}

#[test]
fn list_by_owner_returns_only_that_owner() {
    let mut registry = ClientRegistry::new();
    let a = registry
        .register(
            String::from("a"),
            None,
            Scopes(1),
            String::from("h"),
            vec![String::from("https://a.example/cb")],
            UserId(1),
            0,
        )
        .unwrap();
    let _b = registry
        .register(
            String::from("b"),
            None,
            Scopes(1),
            String::from("h"),
            vec![String::from("https://b.example/cb")],
            UserId(2),
            0,
        )
        .unwrap();
    let c = registry
        .register(
            String::from("c"),
            None,
            Scopes(1),
            String::from("h"),
            vec![String::from("https://c.example/cb")],
            UserId(1),
            0,
        )
        .unwrap();
    let mine = OAuthClient::get_all_user_clients(UserId(1), &registry);
    assert_eq!(mine.len(), 2);
    assert_eq!(mine[0].id, a);
    assert_eq!(mine[1].id, c);
    assert!(OAuthClient::get_all_user_clients(UserId(9), &registry).is_empty());
}

#[test]
fn update_editable_fields_is_owner_only() {
    let (mut registry, id) = registry_with_client();
    let edited = OAuthClient {
        id,
        name: String::from("renamed"),
        icon_url: Some(String::from("https://cdn.example/icon.png")),
        max_scopes: Scopes(0b0011),
        secret_hash: String::from("ignored"),
        redirect_uris: vec![],
        created: 999_999,
        created_by: UserId(999),
    };
    // A non-owner gets the same answer as for an unknown id.
    assert_eq!(edited.update_editable_fields(UserId(8), &mut registry), Err(OAuthError::UnknownClient));
    assert_eq!(OAuthClient::get(id, &registry).unwrap().name, "demo app");

    assert_eq!(edited.update_editable_fields(UserId(7), &mut registry), Ok(()));
    let stored = OAuthClient::get(id, &registry).unwrap();
    assert_eq!(stored.name, "renamed");
    assert_eq!(stored.icon_url, Some(String::from("https://cdn.example/icon.png")));
    assert_eq!(stored.max_scopes, Scopes(0b0011));
    // Untouched: secret, URIs, creation time, owner.
    assert_eq!(stored.secret_hash, "hash-of-secret");
    assert_eq!(stored.redirect_uris.len(), 1);
    assert_eq!(stored.created, 1_000);
    assert_eq!(stored.created_by, UserId(7));
}

#[test]
fn insert_checks_row_shape_and_id() {
    let (mut registry, id) = registry_with_client();
    let clash = OAuthClient {
        id,
        name: String::from("clash"),
        icon_url: None,
        max_scopes: Scopes(0),
        secret_hash: String::from("h"),
        redirect_uris: vec![],
        created: 0,
        created_by: UserId(1),
    };
    assert_eq!(clash.insert(&mut registry), Err(OAuthError::StoreError));

    let foreign_uri = OAuthClient {
        id: OAuthClientId(500),
        name: String::from("bad"),
        icon_url: None,
        max_scopes: Scopes(0),
        secret_hash: String::from("h"),
        redirect_uris: vec![OAuthRedirectUri {
            id: OAuthRedirectUriId(1),
            client_id: OAuthClientId(501),
            uri: String::from("https://x.example/cb"),
        }],
        created: 0,
        created_by: UserId(1),
    };
    assert_eq!(foreign_uri.insert(&mut registry), Err(OAuthError::ValidationError));

    let fine = OAuthClient {
        id: OAuthClientId(500),
        name: String::from("fine"),
        icon_url: None,
        max_scopes: Scopes(0b1),
        secret_hash: String::from("h"),
        redirect_uris: vec![OAuthRedirectUri {
            id: OAuthRedirectUriId(800),
            client_id: OAuthClientId(500),
            uri: String::from("https://x.example/cb"),
        }],
        created: 5,
        created_by: UserId(1),
    };
    assert_eq!(fine.insert(&mut registry), Ok(()));
    assert_eq!(OAuthClient::get(OAuthClientId(500), &registry).unwrap().name, "fine");
    // The id sources moved past the inserted row's ids.
    assert!(registry.next_client_id > 500);
    assert!(registry.next_uri_id > 800);
}

#[test]
fn identifier_space_exhaustion_is_a_store_error() {
    let mut registry = ClientRegistry::new();
    let at_the_edge = OAuthClient {
        id: OAuthClientId(u64::MAX - 1),
        name: String::from("edge"),
        icon_url: None,
        max_scopes: Scopes(0),
        secret_hash: String::from("h"),
        redirect_uris: vec![],
        created: 0,
        created_by: UserId(1),
    };
    assert_eq!(at_the_edge.insert(&mut registry), Ok(()));
    // The client id source now sits at the end of the space: registration
    // cannot draw a fresh id any more.
    assert_eq!(
        registry.register(
            String::from("one-too-many"),
            None,
            Scopes(0),
            String::from("h"),
            vec![String::from("https://x.example/cb")],
            UserId(1),
            0,
        ),
        Err(OAuthError::StoreError)
    );

    // A row carrying the last representable id is itself rejected.
    let unusable = OAuthClient {
        id: OAuthClientId(u64::MAX),
        name: String::from("bad"),
        icon_url: None,
        max_scopes: Scopes(0),
        secret_hash: String::from("h"),
        redirect_uris: vec![],
        created: 0,
        created_by: UserId(1),
    };
    assert_eq!(unusable.insert(&mut registry), Err(OAuthError::ValidationError));

    let unusable_uri = vec![OAuthRedirectUri {
        id: OAuthRedirectUriId(u64::MAX),
        client_id: OAuthClientId(u64::MAX - 1),
        uri: String::from("https://x.example/cb"),
    }];
    assert_eq!(
        OAuthClient::insert_redirect_uris(unusable_uri, &mut registry),
        Err(OAuthError::ValidationError)
    );
}

#[test]
fn update_of_an_absent_client_is_unknown() {
    let mut registry = ClientRegistry::new();
    let ghostly = OAuthClient {
        id: OAuthClientId(1),
        name: String::from("nobody"),
        icon_url: None,
        max_scopes: Scopes(0),
        secret_hash: String::from("h"),
        redirect_uris: vec![],
        created: 0,
        created_by: UserId(1),
    };
    assert_eq!(
        ghostly.update_editable_fields(UserId(1), &mut registry),
        Err(OAuthError::UnknownClient)
    );
}

#[test]
fn insert_redirect_uris_appends_and_is_idempotent() {
    let (mut registry, id) = registry_with_client();
    let batch = vec![
        OAuthRedirectUri {
            id: OAuthRedirectUriId(2_000),
            client_id: id,
            uri: String::from("https://second.example/cb"),
        },
        // Same value as an already registered URI: a no-op.
        OAuthRedirectUri {
            id: OAuthRedirectUriId(2_001),
            client_id: id,
            uri: String::from("https://app.example/callback"),
        },
    ];
    assert_eq!(OAuthClient::insert_redirect_uris(batch, &mut registry), Ok(()));
    let stored = OAuthClient::get(id, &registry).unwrap();
    assert_eq!(stored.redirect_uris.len(), 2);
    assert_eq!(stored.redirect_uris[1].uri, "https://second.example/cb");

    let orphan = vec![OAuthRedirectUri {
        id: OAuthRedirectUriId(3_000),
        client_id: OAuthClientId(12345),
        uri: String::from("https://nowhere.example/cb"),
    }];
    assert_eq!(
        OAuthClient::insert_redirect_uris(orphan, &mut registry),
        Err(OAuthError::StoreError)
    );
    assert_eq!(OAuthClient::get(id, &registry).unwrap().redirect_uris.len(), 2);
}

#[test]
fn remove_redirect_uris_deletes_listed_ids() {
    let (mut registry, id) = registry_with_client();
    let extra = vec![OAuthRedirectUri {
        id: OAuthRedirectUriId(2_000),
        client_id: id,
        uri: String::from("https://second.example/cb"),
    }];
    OAuthClient::insert_redirect_uris(extra, &mut registry).unwrap();
    let first_uri_id = OAuthClient::get(id, &registry).unwrap().redirect_uris[0].id;

    OAuthClient::remove_redirect_uris(&[first_uri_id], &mut registry);
    let stored = OAuthClient::get(id, &registry).unwrap();
    assert_eq!(stored.redirect_uris.len(), 1);
    assert_eq!(stored.redirect_uris[0].uri, "https://second.example/cb");

    // Removing the same id again changes nothing.
    OAuthClient::remove_redirect_uris(&[first_uri_id], &mut registry);
    assert_eq!(OAuthClient::get(id, &registry).unwrap().redirect_uris.len(), 1);
}

#[test]
fn remove_deletes_the_client_and_its_uris() {
    let (mut registry, id) = registry_with_client();
    OAuthClient::remove(id, &mut registry);
    assert!(OAuthClient::get(id, &registry).is_none());
    assert!(registry.clients.is_empty());
    // Removing an absent client changes nothing.
    OAuthClient::remove(id, &mut registry);
    assert!(registry.clients.is_empty());
}

#[test]
fn query_result_mapping_zips_uri_arrays() {
    let row = ClientQueryResult {
        id: 42,
        name: String::from("mapped"),
        icon_url: Some(String::from("https://cdn.example/i.png")),
        max_scopes: -1,
        secret_hash: String::from("h"),
        created: 77,
        created_by: 9,
        uri_ids: Some(vec![10, 11]),
        uri_vals: Some(vec![
            String::from("https://one.example/cb"),
            String::from("https://two.example/cb"),
        ]),
    };
    let client = OAuthClient::from_query_result(row);
    assert_eq!(client.id, OAuthClientId(42));
    assert_eq!(client.name, "mapped");
    assert_eq!(client.max_scopes, Scopes(u64::MAX));
    assert_eq!(client.created, 77);
    assert_eq!(client.created_by, UserId(9));
    assert_eq!(client.redirect_uris.len(), 2);
    assert_eq!(client.redirect_uris[0].id, OAuthRedirectUriId(10));
    assert_eq!(client.redirect_uris[0].client_id, OAuthClientId(42));
    assert_eq!(client.redirect_uris[0].uri, "https://one.example/cb");
    assert_eq!(client.redirect_uris[1].uri, "https://two.example/cb");
}

#[test]
fn query_result_mapping_without_uri_arrays_is_empty() {
    let row = ClientQueryResult {
        id: 1,
        name: String::from("bare"),
        icon_url: None,
        max_scopes: 3,
        secret_hash: String::from("h"),
        created: 0,
        created_by: 2,
        uri_ids: None,
        uri_vals: Some(vec![String::from("https://ignored.example/cb")]),
    };
    let client = OAuthClient::from_query_result(row);
    assert!(client.redirect_uris.is_empty());
    assert_eq!(client.max_scopes, Scopes(3));
}
