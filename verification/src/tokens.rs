//! The token issuer: exchanging a single-use authorization code for a
//! bearer token and recording the grant.
//!
//! The exchange validates the grant type, authenticates the client by id
//! and secret hash, and consumes the code: the flow moves to `Exchanged`
//! and its index entry disappears, so a second exchange with the same code
//! fails `InvalidGrant` — the check and the transition are one operation on
//! the store, which is what makes the code single-use. On success the
//! flow's scopes are unioned into the grant recorded for the (client, user)
//! pair, or a new grant is created, and the token comes back with the
//! flow's narrowed scopes and a fixed lifetime.

use vstd::prelude::*;
use vstd::pervasive::unreached;

use crate::errors::OAuthError;
use crate::flows::spec_accepted_flow;
use crate::flows::spec_begin_flow;
use crate::flows::spec_begin_post;
use crate::flows::spec_accept_post;
use crate::flows::spec_expired;
use crate::flows::Flow;
use crate::flows::FlowStatus;
use crate::flows::FlowStore;
use crate::flows::BeginResponse;
use crate::flows::AcceptResponse;
use crate::ids::OAuthClientId;
use crate::ids::UserId;
use crate::oauth_clients::spec_find_authorization;
use crate::oauth_clients::spec_find_client;
use crate::oauth_clients::ClientRegistry;
use crate::oauth_clients::OAuthClient;
use crate::oauth_clients::OAuthClientAuthorization;
use crate::scopes::Scopes;
use crate::text::clone_opt_string;
use crate::text::str_eq;
use crate::time::now_millis;

verus! {

broadcast use vstd::std_specs::hash::group_hash_axioms;

/// Lifetime a freshly minted token reports, in seconds.
pub const TOKEN_EXPIRES_IN_SECONDS: u64 = 3600;

/// What a successful exchange returns.
#[derive(Debug)]
pub struct TokenResponse {
    /// The bearer token value, drawn by the caller from its randomness
    /// source.
    pub access_token: u64,
    /// Seconds until the token expires.
    pub expires_in: u64,
    /// The granted scopes: exactly the flow's narrowed scopes.
    pub scopes: Scopes,
}

impl TokenResponse {
    /// The token type of every token this issuer mints.
    pub fn token_type(&self) -> (r: &'static str)
        ensures
            r@ == "Bearer"@,
    {
        "Bearer"
    }
}

/// The view of an optional string slice: the characters, if one is there.
pub open spec fn spec_opt_str_view(s: Option<&str>) -> Option<Seq<char>> {
    match s {
        Some(u) => Some(u@),
        None => None,
    }
}

/// `flow`, exchanged.
pub open spec fn spec_exchanged_flow(flow: Flow) -> Flow {
    Flow {
        client_id: flow.client_id,
        user_id: flow.user_id,
        scopes: flow.scopes,
        redirect_uri: flow.redirect_uri,
        state: flow.state,
        status: FlowStatus::Exchanged,
        expires_at: flow.expires_at,
    }
}

/// The error `exchange` returns, if any, in the order the checks run:
/// `UnsupportedGrantType` for any grant type but `authorization_code`;
/// `InvalidClient` for an unknown client id or a wrong secret hash, the two
/// indistinguishable; `InvalidGrant` for a code that indexes no accepted
/// flow, a flow that has expired, a flow of a different client, or a
/// mismatched redirect URI, all indistinguishable; and `StoreError` when a
/// new grant row would be needed but the grant id space is exhausted.
pub open spec fn spec_exchange_err(
    clients: Seq<OAuthClient>,
    flows: Map<u64, Flow>,
    codes: Map<u64, u64>,
    auths: Seq<OAuthClientAuthorization>,
    next_authorization_id: u64,
    grant_type: Seq<char>,
    code: u64,
    redirect_uri: Option<Seq<char>>,
    client_id: OAuthClientId,
    client_secret_hash: Seq<char>,
    now: i64,
) -> Option<OAuthError> {
    if grant_type != "authorization_code"@ {
        Some(OAuthError::UnsupportedGrantType)
    } else {
        match spec_find_client(clients, client_id) {
            None => Some(OAuthError::InvalidClient),
            Some(c) => {
                if c.secret_hash@ != client_secret_hash {
                    Some(OAuthError::InvalidClient)
                } else if !codes.contains_key(code) {
                    Some(OAuthError::InvalidGrant)
                } else {
                    let flow = flows[codes[code]];
                    if spec_expired(flow, now) {
                        Some(OAuthError::InvalidGrant)
                    } else if flow.client_id != client_id {
                        Some(OAuthError::InvalidGrant)
                    } else if redirect_uri matches Some(u) && u != flow.redirect_uri@ {
                        Some(OAuthError::InvalidGrant)
                    } else if spec_find_authorization(auths, client_id, flow.user_id) is None
                        && next_authorization_id == u64::MAX {
                        Some(OAuthError::StoreError)
                    } else {
                        None
                    }
                }
            },
        }
    }
}

/// How a completed `exchange` call relates its outcome to the stores it
/// saw: either the decision chain names the error and nothing changed, or
/// no error applies, the code's flow is consumed, the grant is recorded,
/// and the token carries the flow's scopes.
pub open spec fn spec_exchange_post(
    pre_flows: FlowStore,
    post_flows: FlowStore,
    pre_reg: ClientRegistry,
    post_reg: ClientRegistry,
    grant_type: Seq<char>,
    code: u64,
    redirect_uri: Option<Seq<char>>,
    client_id: OAuthClientId,
    client_secret_hash: Seq<char>,
    token_value: u64,
    now: i64,
    r: Result<TokenResponse, OAuthError>,
) -> bool {
    let err = spec_exchange_err(
        pre_reg.clients@,
        pre_flows.flows@,
        pre_flows.codes@,
        pre_reg.authorizations@,
        pre_reg.next_authorization_id,
        grant_type,
        code,
        redirect_uri,
        client_id,
        client_secret_hash,
        now,
    );
    match r {
        Err(e) => {
            &&& err == Some(e)
            &&& post_flows.flows@ == pre_flows.flows@
            &&& post_flows.codes@ == pre_flows.codes@
            &&& post_reg == pre_reg
        },
        Ok(resp) => {
            &&& err is None
            &&& {
                let fid = pre_flows.codes@[code];
                let flow = pre_flows.flows@[fid];
                &&& post_flows.flows@ == pre_flows.flows@.insert(fid, spec_exchanged_flow(flow))
                &&& post_flows.codes@ == pre_flows.codes@.remove(code)
                &&& post_reg.clients@ == pre_reg.clients@
                &&& post_reg.next_client_id == pre_reg.next_client_id
                &&& post_reg.next_uri_id == pre_reg.next_uri_id
                &&& match spec_find_authorization(
                    pre_reg.authorizations@,
                    client_id,
                    flow.user_id,
                ) {
                    Some(i) => {
                        &&& post_reg.authorizations@ == pre_reg.authorizations@.update(
                            i,
                            OAuthClientAuthorization {
                                id: pre_reg.authorizations@[i].id,
                                client_id,
                                user_id: flow.user_id,
                                scopes: Scopes(
                                    pre_reg.authorizations@[i].scopes.0 | flow.scopes.0,
                                ),
                                created: pre_reg.authorizations@[i].created,
                            },
                        )
                        &&& post_reg.next_authorization_id == pre_reg.next_authorization_id
                    },
                    None => {
                        &&& post_reg.authorizations@ == pre_reg.authorizations@.push(
                            OAuthClientAuthorization {
                                id: crate::ids::OAuthClientAuthorizationId(
                                    pre_reg.next_authorization_id,
                                ),
                                client_id,
                                user_id: flow.user_id,
                                scopes: flow.scopes,
                                created: now,
                            },
                        )
                        &&& post_reg.next_authorization_id == pre_reg.next_authorization_id + 1
                    },
                }
                &&& resp.access_token == token_value
                &&& resp.expires_in == TOKEN_EXPIRES_IN_SECONDS
                &&& resp.scopes == flow.scopes
            }
        },
    }
}

impl FlowStore {
    /// Exchanges an authorization code for a bearer token, atomically with
    /// the flow's transition to `Exchanged`: the same code can never be
    /// exchanged twice. The flow's scopes are unioned into the grant
    /// recorded for the client and the flow's user, or a new grant is
    /// created. The token value is drawn by the caller from its randomness
    /// source; `client_secret_hash` is the presented secret run through
    /// the same hash as at registration.
    pub fn exchange_at(
        &mut self,
        registry: &mut ClientRegistry,
        grant_type: &str,
        code: u64,
        redirect_uri: Option<&str>,
        client_id: OAuthClientId,
        client_secret_hash: &str,
        token_value: u64,
        now: i64,
    ) -> (r: Result<TokenResponse, OAuthError>)
        requires
            old(self).wf(),
            old(registry).wf(),
        ensures
            final(self).wf(),
            final(registry).wf(),
            spec_exchange_post(
                *old(self),
                *final(self),
                *old(registry),
                *final(registry),
                grant_type@,
                code,
                spec_opt_str_view(redirect_uri),
                client_id,
                client_secret_hash@,
                token_value,
                now,
                r,
            ),
    {
        if !str_eq(grant_type, "authorization_code") {
            return Err(OAuthError::UnsupportedGrantType);
        }
        let c = match OAuthClient::get(client_id, registry) {
            Some(c) => c,
            None => {
                return Err(OAuthError::InvalidClient);
            },
        };
        if !str_eq(c.secret_hash.as_str(), client_secret_hash) {
            return Err(OAuthError::InvalidClient);
        }
        let fid = match self.codes.get(&code) {
            Some(fid) => *fid,
            None => {
                return Err(OAuthError::InvalidGrant);
            },
        };
        let flow = match self.flows.get(&fid) {
            Some(f) => f,
            None => unreached(),
        };
        if now >= flow.expires_at {
            return Err(OAuthError::InvalidGrant);
        }
        if flow.client_id.0 != client_id.0 {
            return Err(OAuthError::InvalidGrant);
        }
        match redirect_uri {
            Some(u) => {
                if !str_eq(u, flow.redirect_uri.as_str()) {
                    return Err(OAuthError::InvalidGrant);
                }
            },
            None => {},
        }
        let flow_user = flow.user_id;
        let flow_scopes = flow.scopes;
        if registry.get_authorization(client_id, flow_user).is_none()
            && registry.next_authorization_id == u64::MAX {
            return Err(OAuthError::StoreError);
        }
        let updated = Flow {
            client_id: flow.client_id,
            user_id: flow.user_id,
            scopes: flow.scopes,
            redirect_uri: flow.redirect_uri.clone(),
            state: clone_opt_string(&flow.state),
            status: FlowStatus::Exchanged,
            expires_at: flow.expires_at,
        };
        let ghost pre = *self;
        self.flows.insert(fid, updated);
        self.codes.remove(&code);
        match registry.record_grant(client_id, flow_user, flow_scopes, now) {
            Ok(()) => {},
            Err(_) => unreached(),
        }
        proof {
            assert forall|fid2: u64|
                #[trigger] self.flows@.contains_key(fid2) implies match self.flows@[fid2].status {
                FlowStatus::Accepted { code: c2 } => self.codes@.contains_key(c2)
                    && self.codes@[c2] == fid2,
                _ => true,
            } by {
                if fid2 != fid {
                    assert(pre.flows@.contains_key(fid2));
                    match pre.flows@[fid2].status {
                        FlowStatus::Accepted { code: c2 } => {
                            assert(pre.codes@.contains_key(c2));
                            assert(pre.codes@[c2] == fid2);
                            assert(c2 != code);
                        },
                        _ => {},
                    }
                }
            }
            assert forall|c2: u64|
                #[trigger] self.codes@.contains_key(c2) implies self.flows@.contains_key(
                self.codes@[c2],
            ) && self.flows@[self.codes@[c2]].status == (FlowStatus::Accepted { code: c2 }) by {
                assert(pre.codes@.contains_key(c2));
                assert(c2 != code);
                assert(pre.codes@[c2] != fid);
            }
        }
        Ok(TokenResponse { access_token: token_value, expires_in: TOKEN_EXPIRES_IN_SECONDS, scopes: flow_scopes })
    }

    /// `exchange_at` against the wall clock, read once here.
    pub fn exchange(
        &mut self,
        registry: &mut ClientRegistry,
        grant_type: &str,
        code: u64,
        redirect_uri: Option<&str>,
        client_id: OAuthClientId,
        client_secret_hash: &str,
        token_value: u64,
    ) -> (r: Result<TokenResponse, OAuthError>)
        requires
            old(self).wf(),
            old(registry).wf(),
        ensures
            final(self).wf(),
            final(registry).wf(),
            exists|now: i64|
                #[trigger] spec_exchange_post(
                    *old(self),
                    *final(self),
                    *old(registry),
                    *final(registry),
                    grant_type@,
                    code,
                    spec_opt_str_view(redirect_uri),
                    client_id,
                    client_secret_hash@,
                    token_value,
                    now,
                    r,
                ),
    {
        let now = now_millis();
        self.exchange_at(
            registry,
            grant_type,
            code,
            redirect_uri,
            client_id,
            client_secret_hash,
            token_value,
            now,
        )
    }
}

/// A grant only ever grows: after a successful exchange, every grant row
/// that was in the store still holds every scope it held, and the grant
/// for the exchanging pair also holds the flow's scopes.
pub proof fn lemma_exchange_never_shrinks_grants(
    pre_flows: FlowStore,
    post_flows: FlowStore,
    pre_reg: ClientRegistry,
    post_reg: ClientRegistry,
    grant_type: Seq<char>,
    code: u64,
    redirect_uri: Option<Seq<char>>,
    client_id: OAuthClientId,
    client_secret_hash: Seq<char>,
    token_value: u64,
    now: i64,
    resp: TokenResponse,
)
    requires
        spec_exchange_post(
            pre_flows,
            post_flows,
            pre_reg,
            post_reg,
            grant_type,
            code,
            redirect_uri,
            client_id,
            client_secret_hash,
            token_value,
            now,
            Ok(resp),
        ),
    ensures
        forall|j: int|
            0 <= j < pre_reg.authorizations@.len() ==> (
            #[trigger] post_reg.authorizations@[j]).scopes.spec_contains_all(
                pre_reg.authorizations@[j].scopes,
            ),
{
    let flow = pre_flows.flows@[pre_flows.codes@[code]];
    crate::oauth_clients::lemma_find_authorization_in_range(
        pre_reg.authorizations@,
        client_id,
        flow.user_id,
    );
    assert forall|j: int|
        0 <= j < pre_reg.authorizations@.len() implies (
    #[trigger] post_reg.authorizations@[j]).scopes.spec_contains_all(
        pre_reg.authorizations@[j].scopes,
    ) by {
        match spec_find_authorization(pre_reg.authorizations@, client_id, flow.user_id) {
            Some(i) => {
                if j == i {
                    crate::scopes::lemma_union_contains_operands(
                        pre_reg.authorizations@[i].scopes,
                        flow.scopes,
                    );
                } else {
                    lemma_scopes_contain_themselves(pre_reg.authorizations@[j].scopes);
                }
            },
            None => {
                lemma_scopes_contain_themselves(pre_reg.authorizations@[j].scopes);
            },
        }
    }
}

/// Every scope set is a subset of itself.
proof fn lemma_scopes_contain_themselves(s: Scopes)
    ensures
        s.spec_contains_all(s),
{
    let x = s.0;
    assert(x & x == x) by (bit_vector);
}

/// A code is consumed by the exchange that succeeds on it: after that
/// exchange, any exchange presenting the same code fails `InvalidGrant`,
/// whatever its redirect URI, token value or time — of two competing
/// exchanges of one code, exactly one can succeed.
pub proof fn lemma_code_single_use(
    pre_flows: FlowStore,
    post_flows: FlowStore,
    pre_reg: ClientRegistry,
    post_reg: ClientRegistry,
    code: u64,
    redirect_uri: Option<Seq<char>>,
    client_id: OAuthClientId,
    client_secret_hash: Seq<char>,
    token_value: u64,
    now: i64,
    resp: TokenResponse,
    redirect_uri2: Option<Seq<char>>,
    token_value2: u64,
    now2: i64,
)
    requires
        spec_exchange_post(
            pre_flows,
            post_flows,
            pre_reg,
            post_reg,
            "authorization_code"@,
            code,
            redirect_uri,
            client_id,
            client_secret_hash,
            token_value,
            now,
            Ok(resp),
        ),
    ensures
        spec_exchange_err(
            post_reg.clients@,
            post_flows.flows@,
            post_flows.codes@,
            post_reg.authorizations@,
            post_reg.next_authorization_id,
            "authorization_code"@,
            code,
            redirect_uri2,
            client_id,
            client_secret_hash,
            now2,
        ) == Some(OAuthError::InvalidGrant),
{
    assert(!post_flows.codes@.contains_key(code));
}

/// Presenting a code that indexes no accepted flow fails `InvalidGrant`,
/// for a well-authenticated client; with
/// `lemma_created_flow_has_no_code`, an exchange against a flow still in
/// `Created` can only fail this way.
pub proof fn lemma_exchange_needs_issued_code(
    store: FlowStore,
    reg: ClientRegistry,
    code: u64,
    redirect_uri: Option<Seq<char>>,
    client_id: OAuthClientId,
    client_secret_hash: Seq<char>,
    now: i64,
)
    requires
        !store.codes@.contains_key(code),
        spec_find_client(reg.clients@, client_id) matches Some(c) && c.secret_hash@
            == client_secret_hash,
    ensures
        spec_exchange_err(
            reg.clients@,
            store.flows@,
            store.codes@,
            reg.authorizations@,
            reg.next_authorization_id,
            "authorization_code"@,
            code,
            redirect_uri,
            client_id,
            client_secret_hash,
            now,
        ) == Some(OAuthError::InvalidGrant),
{
}

/// The full protocol, end to end: after `begin` narrows the request and
/// `accept` issues a code, an exchange presenting that code with the
/// captured redirect URI and the right secret is owed success, and the
/// granted scopes are exactly the narrowed scopes `begin` returned — the
/// requested scopes clamped to the client's ceiling.
pub proof fn lemma_flow_end_to_end(
    s0: FlowStore,
    s1: FlowStore,
    s2: FlowStore,
    reg: ClientRegistry,
    client_id: OAuthClientId,
    requested_scopes: Scopes,
    redirect_uri: Option<String>,
    state: Option<String>,
    user_id: UserId,
    flow_id: u64,
    code: u64,
    t1: i64,
    t2: i64,
    t3: i64,
    resp1: BeginResponse,
    resp2: AcceptResponse,
    client_secret_hash: Seq<char>,
)
    requires
        s0.wf(),
        reg.wf(),
        spec_begin_post(
            s0,
            s1,
            reg.clients@,
            client_id,
            requested_scopes,
            redirect_uri,
            state,
            user_id,
            flow_id,
            t1,
            Ok(resp1),
        ),
        spec_accept_post(s1, s2, flow_id, user_id, code, t2, Ok(resp2)),
        spec_find_client(reg.clients@, client_id) matches Some(c) && c.secret_hash@
            == client_secret_hash,
        t3 < s2.flows@[flow_id].expires_at,
        reg.next_authorization_id < u64::MAX,
    ensures
        spec_exchange_err(
            reg.clients@,
            s2.flows@,
            s2.codes@,
            reg.authorizations@,
            reg.next_authorization_id,
            "authorization_code"@,
            code,
            Some(resp1.redirect_uri@),
            client_id,
            client_secret_hash,
            t3,
        ) is None,
        s2.flows@[s2.codes@[code]].scopes == resp1.scopes,
        spec_find_client(reg.clients@, client_id) matches Some(c) && resp1.scopes == Scopes(
            requested_scopes.0 & c.max_scopes.0,
        ),
{
    crate::oauth_clients::lemma_find_client_props(reg.clients@, client_id);
    match spec_find_client(reg.clients@, client_id) {
        Some(c) => {
            let flow0 = spec_begin_flow(c, requested_scopes, redirect_uri, state, user_id, t1);
            assert(s1.flows@ == s0.flows@.insert(flow_id, flow0));
            assert(s1.flows@[flow_id] == flow0);
            let accepted = spec_accepted_flow(flow0, code);
            assert(s2.flows@ == s1.flows@.insert(flow_id, accepted));
            assert(s2.codes@ == s1.codes@.insert(code, flow_id));
            assert(s2.codes@[code] == flow_id);
            assert(s2.flows@[flow_id] == accepted);
            assert(accepted.client_id == client_id);
            assert(accepted.redirect_uri == resp1.redirect_uri);
            assert(accepted.scopes == resp1.scopes);
        },
        None => {
            assert(false);
        },
    }
}

} // verus!
