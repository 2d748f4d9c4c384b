//! The authorization flow controller: ephemeral, single-use flow state.
//!
//! A flow is one instance of the authorize-accept/reject-exchange protocol.
//! It is created when an authenticated user begins an authorization request,
//! moves from `Created` to `Accepted` (gaining a single-use code) or
//! `Rejected` on the user's decision, and from `Accepted` to `Exchanged`
//! when the token issuer consumes the code. Every flow carries a fixed
//! time-to-live from creation; expiry is checked lazily on each access, and
//! an expired flow is indistinguishable from an absent one to the caller.
//!
//! The store keys flows by an unguessable identifier drawn by the caller
//! from its randomness source, and indexes issued codes so that an exchange
//! is a point lookup; the well-formedness invariant keeps the two maps in
//! lockstep. The operations take the current time as an argument and so are
//! verified for every clock reading; the entry points without the time
//! parameter read the wall clock and delegate.

use std::collections::HashMap;

use vstd::prelude::*;

use crate::errors::OAuthError;
use crate::ids::OAuthClientId;
use crate::ids::UserId;
use crate::oauth_clients::spec_find_client;
use crate::oauth_clients::spec_has_uri_value;
use crate::oauth_clients::has_uri_value;
use crate::oauth_clients::ClientRegistry;
use crate::oauth_clients::OAuthClient;
use crate::scopes::lemma_intersection_is_subset;
use crate::scopes::Scopes;
use crate::text::clone_opt_string;
use crate::text::spec_u64_digits;
use crate::text::u64_to_string;
use crate::time::now_millis;
use vstd::string::StringExecFns;
use crate::time::saturating_add_millis;
use crate::time::spec_saturating_add;

verus! {

broadcast use vstd::std_specs::hash::group_hash_axioms;

/// Lifetime of a flow from creation, in milliseconds: ten minutes.
pub const FLOW_EXPIRY_MILLIS: i64 = 600000;

/// Where a flow stands in the `Created` to `Accepted`/`Rejected` to
/// `Exchanged` protocol. `Rejected` and `Exchanged` are terminal.
#[derive(Clone, Copy, PartialEq, Eq, Structural, Debug)]
pub enum FlowStatus {
    /// Created, awaiting the user's decision.
    Created,
    /// Accepted by the user; `code` is the single-use authorization code.
    Accepted { code: u64 },
    /// Rejected by the user; no code was or will be issued.
    Rejected,
    /// The code was exchanged for a token; it cannot be exchanged again.
    Exchanged,
}

/// One flow's state: what was requested, by whom, where the response goes,
/// and where the flow stands.
pub struct Flow {
    pub client_id: OAuthClientId,
    pub user_id: UserId,
    /// The requested scopes, already clamped to the client's ceiling.
    pub scopes: Scopes,
    /// The redirect URI captured by value at creation; later changes to the
    /// client's registered URIs do not affect the flow.
    pub redirect_uri: String,
    /// An opaque value echoed back to the client on acceptance.
    pub state: Option<String>,
    pub status: FlowStatus,
    /// Expiry timestamp, in milliseconds since the epoch.
    pub expires_at: i64,
}

/// The ephemeral flow store: flows keyed by flow identifier, and issued
/// codes indexed back to the flow each belongs to.
pub struct FlowStore {
    pub flows: HashMap<u64, Flow>,
    pub codes: HashMap<u64, u64>,
}

/// Whether a flow is expired at time `now`.
pub open spec fn spec_expired(flow: Flow, now: i64) -> bool {
    now >= flow.expires_at
}

impl FlowStore {
    /// The store's invariant: a flow in `Accepted { code }` is indexed
    /// under exactly that code, and every index entry points back to a
    /// flow accepted with its code.
    pub open spec fn wf(self) -> bool {
        &&& forall|fid: u64|
            #[trigger] self.flows@.contains_key(fid) ==> match self.flows@[fid].status {
                FlowStatus::Accepted { code } => self.codes@.contains_key(code)
                    && self.codes@[code] == fid,
                _ => true,
            }
        &&& forall|c: u64|
            #[trigger] self.codes@.contains_key(c) ==> self.flows@.contains_key(self.codes@[c])
                && self.flows@[self.codes@[c]].status == (FlowStatus::Accepted { code: c })
    }

    /// An empty store.
    pub fn new() -> (r: FlowStore)
        ensures
            r.wf(),
            r.flows@ == Map::<u64, Flow>::empty(),
            r.codes@ == Map::<u64, u64>::empty(),
    {
        FlowStore { flows: HashMap::new(), codes: HashMap::new() }
    }
}

/// The error `begin` returns, if any: `UnknownClient` for an absent client,
/// `RedirectMismatch` when the supplied URI is not registered or when none
/// was supplied and the client does not have exactly one, and `StoreError`
/// when the freshly drawn flow identifier is already live. An over-broad
/// scope request is never an error: it is narrowed silently.
pub open spec fn spec_begin_err(
    clients: Seq<OAuthClient>,
    flows: Map<u64, Flow>,
    client_id: OAuthClientId,
    redirect_uri: Option<String>,
    flow_id: u64,
) -> Option<OAuthError> {
    match spec_find_client(clients, client_id) {
        None => Some(OAuthError::UnknownClient),
        Some(c) => {
            let uri_ok = match redirect_uri {
                Some(u) => spec_has_uri_value(c.redirect_uris@, u@),
                None => c.redirect_uris@.len() == 1,
            };
            if !uri_ok {
                Some(OAuthError::RedirectMismatch)
            } else if flows.contains_key(flow_id) {
                Some(OAuthError::StoreError)
            } else {
                None
            }
        },
    }
}

/// The redirect URI a successful `begin` captures: the supplied one, or the
/// client's sole registered URI when none was supplied.
pub open spec fn spec_begin_uri(c: OAuthClient, redirect_uri: Option<String>) -> String {
    match redirect_uri {
        Some(u) => u,
        None => c.redirect_uris@[0].uri,
    }
}

/// The flow a successful `begin` creates: the requested scopes clamped to
/// the client's ceiling by intersection, the captured redirect URI, the
/// opaque state echo, and an expiry one lifetime from `now`.
pub open spec fn spec_begin_flow(
    c: OAuthClient,
    requested_scopes: Scopes,
    redirect_uri: Option<String>,
    state: Option<String>,
    user_id: UserId,
    now: i64,
) -> Flow {
    Flow {
        client_id: c.id,
        user_id,
        scopes: Scopes(requested_scopes.0 & c.max_scopes.0),
        redirect_uri: spec_begin_uri(c, redirect_uri),
        state,
        status: FlowStatus::Created,
        expires_at: spec_saturating_add(now, FLOW_EXPIRY_MILLIS),
    }
}

/// What `begin` returns to the caller, for the consent prompt.
#[derive(Debug)]
pub struct BeginResponse {
    pub flow_id: u64,
    /// The narrowed scopes the prompt presents: always a subset of the
    /// client's ceiling.
    pub scopes: Scopes,
    /// The redirect URI the flow captured.
    pub redirect_uri: String,
}

/// How a completed `begin` call relates its outcome to the store it saw:
/// either the decision chain names the error and the store is unchanged, or
/// no error applies and the new flow is stored under the identifier.
pub open spec fn spec_begin_post(
    pre: FlowStore,
    post: FlowStore,
    clients: Seq<OAuthClient>,
    client_id: OAuthClientId,
    requested_scopes: Scopes,
    redirect_uri: Option<String>,
    state: Option<String>,
    user_id: UserId,
    flow_id: u64,
    now: i64,
    r: Result<BeginResponse, OAuthError>,
) -> bool {
    &&& post.codes@ == pre.codes@
    &&& match r {
        Err(e) => {
            &&& spec_begin_err(clients, pre.flows@, client_id, redirect_uri, flow_id) == Some(e)
            &&& post.flows@ == pre.flows@
        },
        Ok(resp) => {
            &&& spec_begin_err(clients, pre.flows@, client_id, redirect_uri, flow_id) is None
            &&& spec_find_client(clients, client_id) matches Some(c) && {
                let flow = spec_begin_flow(c, requested_scopes, redirect_uri, state, user_id, now);
                &&& post.flows@ == pre.flows@.insert(flow_id, flow)
                &&& resp.flow_id == flow_id
                &&& resp.scopes == flow.scopes
                &&& resp.redirect_uri == flow.redirect_uri
                &&& c.max_scopes.spec_contains_all(resp.scopes)
            }
        },
    }
}

/// The error `accept` or `reject` returns before the user check, if any: an
/// absent, expired, or already decided flow is `FlowNotFound`, all three
/// indistinguishable to the caller.
pub open spec fn spec_flow_gate_err(
    flows: Map<u64, Flow>,
    flow_id: u64,
    user_id: UserId,
    now: i64,
) -> Option<OAuthError> {
    if !flows.contains_key(flow_id) {
        Some(OAuthError::FlowNotFound)
    } else if spec_expired(flows[flow_id], now) {
        Some(OAuthError::FlowNotFound)
    } else if !(flows[flow_id].status is Created) {
        Some(OAuthError::FlowNotFound)
    } else if flows[flow_id].user_id != user_id {
        Some(OAuthError::FlowOwnerMismatch)
    } else {
        None
    }
}

/// The error `accept` returns, if any: the flow gate, then `StoreError`
/// when the freshly drawn code is already in use.
pub open spec fn spec_accept_err(
    flows: Map<u64, Flow>,
    codes: Map<u64, u64>,
    flow_id: u64,
    user_id: UserId,
    code: u64,
    now: i64,
) -> Option<OAuthError> {
    match spec_flow_gate_err(flows, flow_id, user_id, now) {
        Some(e) => Some(e),
        None => if codes.contains_key(code) {
            Some(OAuthError::StoreError)
        } else {
            None
        },
    }
}

/// `flow`, accepted with `code`.
pub open spec fn spec_accepted_flow(flow: Flow, code: u64) -> Flow {
    Flow {
        client_id: flow.client_id,
        user_id: flow.user_id,
        scopes: flow.scopes,
        redirect_uri: flow.redirect_uri,
        state: flow.state,
        status: FlowStatus::Accepted { code },
        expires_at: flow.expires_at,
    }
}

/// `flow`, rejected.
pub open spec fn spec_rejected_flow(flow: Flow) -> Flow {
    Flow {
        client_id: flow.client_id,
        user_id: flow.user_id,
        scopes: flow.scopes,
        redirect_uri: flow.redirect_uri,
        state: flow.state,
        status: FlowStatus::Rejected,
        expires_at: flow.expires_at,
    }
}

/// What `accept` returns: the makings of the redirect back to the client,
/// carrying the code and the echoed state.
#[derive(Debug)]
pub struct AcceptResponse {
    pub redirect_uri: String,
    pub code: u64,
    pub state: Option<String>,
}

/// How a completed `accept` call relates its outcome to the store it saw.
pub open spec fn spec_accept_post(
    pre: FlowStore,
    post: FlowStore,
    flow_id: u64,
    user_id: UserId,
    code: u64,
    now: i64,
    r: Result<AcceptResponse, OAuthError>,
) -> bool {
    match r {
        Err(e) => {
            &&& spec_accept_err(pre.flows@, pre.codes@, flow_id, user_id, code, now) == Some(e)
            &&& post.flows@ == pre.flows@
            &&& post.codes@ == pre.codes@
        },
        Ok(resp) => {
            &&& spec_accept_err(pre.flows@, pre.codes@, flow_id, user_id, code, now) is None
            &&& {
                let flow = pre.flows@[flow_id];
                &&& post.flows@ == pre.flows@.insert(flow_id, spec_accepted_flow(flow, code))
                &&& post.codes@ == pre.codes@.insert(code, flow_id)
                &&& resp.redirect_uri == flow.redirect_uri
                &&& resp.code == code
                &&& resp.state == flow.state
            }
        },
    }
}

/// How a completed `reject` call relates its outcome to the store it saw;
/// the returned string is the captured redirect URI, for the caller's
/// access-denied redirect. No code is issued, now or ever.
pub open spec fn spec_reject_post(
    pre: FlowStore,
    post: FlowStore,
    flow_id: u64,
    user_id: UserId,
    now: i64,
    r: Result<String, OAuthError>,
) -> bool {
    &&& post.codes@ == pre.codes@
    &&& match r {
        Err(e) => {
            &&& spec_flow_gate_err(pre.flows@, flow_id, user_id, now) == Some(e)
            &&& post.flows@ == pre.flows@
        },
        Ok(uri) => {
            &&& spec_flow_gate_err(pre.flows@, flow_id, user_id, now) is None
            &&& post.flows@ == pre.flows@.insert(
                flow_id,
                spec_rejected_flow(pre.flows@[flow_id]),
            )
            &&& uri == pre.flows@[flow_id].redirect_uri
        },
    }
}

impl FlowStore {
    /// Begins an authorization flow against the registered client, under a
    /// flow identifier the caller drew from its randomness source. The
    /// requested scopes are narrowed to the client's ceiling, never
    /// rejected for being over-broad; the response carries the narrowed
    /// set for the consent prompt, always a subset of the ceiling.
    pub fn begin_at(
        &mut self,
        registry: &ClientRegistry,
        client_id: OAuthClientId,
        requested_scopes: Scopes,
        redirect_uri: Option<String>,
        state: Option<String>,
        user_id: UserId,
        flow_id: u64,
        now: i64,
    ) -> (r: Result<BeginResponse, OAuthError>)
        requires
            old(self).wf(),
        ensures
            final(self).wf(),
            spec_begin_post(
                *old(self),
                *final(self),
                registry.clients@,
                client_id,
                requested_scopes,
                redirect_uri,
                state,
                user_id,
                flow_id,
                now,
                r,
            ),
    {
        let c = match OAuthClient::get(client_id, registry) {
            Some(c) => c,
            None => {
                return Err(OAuthError::UnknownClient);
            },
        };
        let chosen: String = match &redirect_uri {
            Some(u) => {
                if !has_uri_value(&c.redirect_uris, u.as_str()) {
                    return Err(OAuthError::RedirectMismatch);
                }
                u.clone()
            },
            None => {
                if c.redirect_uris.len() != 1 {
                    return Err(OAuthError::RedirectMismatch);
                }
                c.redirect_uris[0].uri.clone()
            },
        };
        if self.flows.contains_key(&flow_id) {
            return Err(OAuthError::StoreError);
        }
        let scopes = requested_scopes.intersect(&c.max_scopes);
        let flow = Flow {
            client_id: c.id,
            user_id,
            scopes,
            redirect_uri: chosen,
            state,
            status: FlowStatus::Created,
            expires_at: saturating_add_millis(now, FLOW_EXPIRY_MILLIS),
        };
        let ghost pre = *self;
        let resp = BeginResponse {
            flow_id,
            scopes,
            redirect_uri: flow.redirect_uri.clone(),
        };
        self.flows.insert(flow_id, flow);
        proof {
            lemma_intersection_is_subset(requested_scopes, c.max_scopes);
            assert forall|fid: u64|
                #[trigger] self.flows@.contains_key(fid) implies match self.flows@[fid].status {
                FlowStatus::Accepted { code } => self.codes@.contains_key(code)
                    && self.codes@[code] == fid,
                _ => true,
            } by {
                if fid != flow_id {
                    assert(pre.flows@.contains_key(fid));
                }
            }
        }
        Ok(resp)
    }

    /// Accepts the flow on behalf of its owner: the flow moves to
    /// `Accepted` with a single-use code the caller drew from its
    /// randomness source, and the response carries what the redirect back
    /// to the client needs. Any flow that is absent, expired, or already
    /// decided fails `FlowNotFound`, indistinguishably.
    pub fn accept_at(&mut self, flow_id: u64, user_id: UserId, code: u64, now: i64) -> (r: Result<
        AcceptResponse,
        OAuthError,
    >)
        requires
            old(self).wf(),
        ensures
            final(self).wf(),
            spec_accept_post(*old(self), *final(self), flow_id, user_id, code, now, r),
    {
        let flow = match self.flows.get(&flow_id) {
            Some(f) => f,
            None => {
                return Err(OAuthError::FlowNotFound);
            },
        };
        if now >= flow.expires_at {
            return Err(OAuthError::FlowNotFound);
        }
        match flow.status {
            FlowStatus::Created => {},
            _ => {
                return Err(OAuthError::FlowNotFound);
            },
        }
        if flow.user_id.0 != user_id.0 {
            return Err(OAuthError::FlowOwnerMismatch);
        }
        if self.codes.contains_key(&code) {
            return Err(OAuthError::StoreError);
        }
        let updated = Flow {
            client_id: flow.client_id,
            user_id: flow.user_id,
            scopes: flow.scopes,
            redirect_uri: flow.redirect_uri.clone(),
            state: clone_opt_string(&flow.state),
            status: FlowStatus::Accepted { code },
            expires_at: flow.expires_at,
        };
        let resp = AcceptResponse {
            redirect_uri: flow.redirect_uri.clone(),
            code,
            state: clone_opt_string(&flow.state),
        };
        let ghost pre = *self;
        self.flows.insert(flow_id, updated);
        self.codes.insert(code, flow_id);
        proof {
            assert forall|fid: u64|
                #[trigger] self.flows@.contains_key(fid) implies match self.flows@[fid].status {
                FlowStatus::Accepted { code: c2 } => self.codes@.contains_key(c2)
                    && self.codes@[c2] == fid,
                _ => true,
            } by {
                if fid != flow_id {
                    assert(pre.flows@.contains_key(fid));
                    match pre.flows@[fid].status {
                        FlowStatus::Accepted { code: c2 } => {
                            assert(pre.codes@.contains_key(c2));
                            assert(c2 != code);
                        },
                        _ => {},
                    }
                }
            }
            assert forall|c2: u64|
                #[trigger] self.codes@.contains_key(c2) implies self.flows@.contains_key(
                self.codes@[c2],
            ) && self.flows@[self.codes@[c2]].status == (FlowStatus::Accepted { code: c2 }) by {
                if c2 != code {
                    assert(pre.codes@.contains_key(c2));
                    assert(pre.codes@[c2] != flow_id);
                }
            }
        }
        Ok(resp)
    }

    /// Rejects the flow on behalf of its owner: the flow moves to
    /// `Rejected`, terminally, and no code is issued. The captured
    /// redirect URI comes back so the caller can redirect with an
    /// access-denied error. The same `FlowNotFound` gate applies as for
    /// acceptance.
    pub fn reject_at(&mut self, flow_id: u64, user_id: UserId, now: i64) -> (r: Result<
        String,
        OAuthError,
    >)
        requires
            old(self).wf(),
        ensures
            final(self).wf(),
            spec_reject_post(*old(self), *final(self), flow_id, user_id, now, r),
    {
        let flow = match self.flows.get(&flow_id) {
            Some(f) => f,
            None => {
                return Err(OAuthError::FlowNotFound);
            },
        };
        if now >= flow.expires_at {
            return Err(OAuthError::FlowNotFound);
        }
        match flow.status {
            FlowStatus::Created => {},
            _ => {
                return Err(OAuthError::FlowNotFound);
            },
        }
        if flow.user_id.0 != user_id.0 {
            return Err(OAuthError::FlowOwnerMismatch);
        }
        let updated = Flow {
            client_id: flow.client_id,
            user_id: flow.user_id,
            scopes: flow.scopes,
            redirect_uri: flow.redirect_uri.clone(),
            state: clone_opt_string(&flow.state),
            status: FlowStatus::Rejected,
            expires_at: flow.expires_at,
        };
        let uri = flow.redirect_uri.clone();
        let ghost pre = *self;
        self.flows.insert(flow_id, updated);
        proof {
            assert forall|fid: u64|
                #[trigger] self.flows@.contains_key(fid) implies match self.flows@[fid].status {
                FlowStatus::Accepted { code: c2 } => self.codes@.contains_key(c2)
                    && self.codes@[c2] == fid,
                _ => true,
            } by {
                if fid != flow_id {
                    assert(pre.flows@.contains_key(fid));
                }
            }
            assert forall|c2: u64|
                #[trigger] self.codes@.contains_key(c2) implies self.flows@.contains_key(
                self.codes@[c2],
            ) && self.flows@[self.codes@[c2]].status == (FlowStatus::Accepted { code: c2 }) by {
                assert(pre.codes@.contains_key(c2));
                assert(pre.codes@[c2] != flow_id);
            }
        }
        Ok(uri)
    }

    /// `begin_at` against the wall clock, read once here.
    pub fn begin(
        &mut self,
        registry: &ClientRegistry,
        client_id: OAuthClientId,
        requested_scopes: Scopes,
        redirect_uri: Option<String>,
        state: Option<String>,
        user_id: UserId,
        flow_id: u64,
    ) -> (r: Result<BeginResponse, OAuthError>)
        requires
            old(self).wf(),
        ensures
            final(self).wf(),
            exists|now: i64|
                spec_begin_post(
                    *old(self),
                    *final(self),
                    registry.clients@,
                    client_id,
                    requested_scopes,
                    redirect_uri,
                    state,
                    user_id,
                    flow_id,
                    now,
                    r,
                ),
    {
        let now = now_millis();
        self.begin_at(
            registry,
            client_id,
            requested_scopes,
            redirect_uri,
            state,
            user_id,
            flow_id,
            now,
        )
    }

    /// `accept_at` against the wall clock, read once here.
    pub fn accept(&mut self, flow_id: u64, user_id: UserId, code: u64) -> (r: Result<
        AcceptResponse,
        OAuthError,
    >)
        requires
            old(self).wf(),
        ensures
            final(self).wf(),
            exists|now: i64|
                spec_accept_post(*old(self), *final(self), flow_id, user_id, code, now, r),
    {
        let now = now_millis();
        self.accept_at(flow_id, user_id, code, now)
    }

    /// `reject_at` against the wall clock, read once here.
    pub fn reject(&mut self, flow_id: u64, user_id: UserId) -> (r: Result<String, OAuthError>)
        requires
            old(self).wf(),
        ensures
            final(self).wf(),
            exists|now: i64| spec_reject_post(*old(self), *final(self), flow_id, user_id, now, r),
    {
        let now = now_millis();
        self.reject_at(flow_id, user_id, now)
    }
}

/// The redirect target a successful acceptance sends the user agent to:
/// the captured URI, the code in decimal, and the state echo when the
/// client supplied one.
pub open spec fn spec_accept_redirect_target(
    redirect_uri: Seq<char>,
    code: u64,
    state: Option<String>,
) -> Seq<char> {
    redirect_uri + "?code="@ + spec_u64_digits(code) + (match state {
        Some(s) => "&state="@ + s@,
        None => Seq::<char>::empty(),
    })
}

/// The redirect target a rejection sends the user agent to: the captured
/// URI with an access-denied error instead of a code.
pub open spec fn spec_reject_redirect_target(redirect_uri: Seq<char>) -> Seq<char> {
    redirect_uri + "?error=access_denied"@
}

impl AcceptResponse {
    /// The redirect target for this acceptance:
    /// `redirect_uri?code=...&state=...`.
    pub fn redirect_target(&self) -> (r: String)
        ensures
            r@ == spec_accept_redirect_target(self.redirect_uri@, self.code, self.state),
    {
        let mut out = self.redirect_uri.clone();
        out.append("?code=");
        let digits = u64_to_string(self.code);
        out.append(digits.as_str());
        match &self.state {
            Some(s) => {
                out.append("&state=");
                out.append(s.as_str());
            },
            None => {},
        }
        proof {
            assert(out@ =~= spec_accept_redirect_target(
                self.redirect_uri@,
                self.code,
                self.state,
            ));
        }
        out
    }
}

/// The redirect target for a rejection of a flow that captured
/// `redirect_uri`: `redirect_uri?error=access_denied`.
pub fn reject_redirect_target(redirect_uri: &str) -> (r: String)
    ensures
        r@ == spec_reject_redirect_target(redirect_uri@),
{
    let mut out = redirect_uri.to_owned();
    out.append("?error=access_denied");
    proof {
        assert(out@ =~= spec_reject_redirect_target(redirect_uri@));
    }
    out
}

/// A decided flow cannot be decided again: once it has left `Created`,
/// both `accept` and `reject` fail `FlowNotFound`, whatever the user, code
/// or time.
pub proof fn lemma_decided_flow_cannot_be_decided(
    store: FlowStore,
    flow_id: u64,
    user_id: UserId,
    code: u64,
    now: i64,
)
    requires
        store.flows@.contains_key(flow_id),
        !(store.flows@[flow_id].status is Created),
    ensures
        spec_accept_err(store.flows@, store.codes@, flow_id, user_id, code, now) == Some(
            OAuthError::FlowNotFound,
        ),
        spec_flow_gate_err(store.flows@, flow_id, user_id, now) == Some(OAuthError::FlowNotFound),
{
}

/// A flow still in `Created` has no authorization code at all: no entry of
/// the code index points at it.
pub proof fn lemma_created_flow_has_no_code(store: FlowStore, flow_id: u64)
    requires
        store.wf(),
        store.flows@.contains_key(flow_id),
        store.flows@[flow_id].status is Created,
    ensures
        forall|c: u64| #[trigger] store.codes@.contains_key(c) ==> store.codes@[c] != flow_id,
{
}

} // verus!
