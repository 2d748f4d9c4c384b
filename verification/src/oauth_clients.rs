//! The client registry: OAuth clients, their redirect URIs, and the grants
//! recorded for them.
//!
//! The registry is the in-memory model of the relational rows behind the
//! authorization core: `oauth_clients`, their nested redirect-URI rows, and
//! `oauth_client_authorizations` (one grant per client-user pair). Its
//! well-formedness invariant carries the store's uniqueness and referential
//! constraints: client ids are unique, a client's redirect URIs are its own
//! and pairwise distinct by value, grants are unique per (client, user) and
//! never reference an absent client.

use vstd::prelude::*;
use vstd::pervasive::unreached;

use crate::errors::OAuthError;
use crate::ids::OAuthClientAuthorizationId;
use crate::ids::OAuthClientId;
use crate::ids::OAuthRedirectUriId;
use crate::ids::UserId;
use crate::scopes::Scopes;
use crate::text::is_absolute_uri;
use crate::text::spec_is_absolute_uri;
use crate::text::str_eq;

verus! {

/// A registered redirect URI row: belongs to exactly one client and is
/// matched by exact string equality during flow validation.
#[derive(Debug)]
pub struct OAuthRedirectUri {
    pub id: OAuthRedirectUriId,
    pub client_id: OAuthClientId,
    pub uri: String,
}

/// A registered OAuth client.
#[derive(Debug)]
pub struct OAuthClient {
    pub id: OAuthClientId,
    pub name: String,
    pub icon_url: Option<String>,
    /// The ceiling no grant under this client may exceed.
    pub max_scopes: Scopes,
    /// Hash of the client secret; the secret itself is never stored.
    pub secret_hash: String,
    pub redirect_uris: Vec<OAuthRedirectUri>,
    /// Creation time, in milliseconds since the Unix epoch.
    pub created: i64,
    /// The user that created (and thus controls) this client.
    pub created_by: UserId,
}

/// A grant: the cumulative scope set a user has approved for a client.
/// At most one row exists per (client, user) pair; repeated authorization
/// flows union into it and never shrink it.
#[derive(Clone, Copy, PartialEq, Eq, Structural, Debug)]
pub struct OAuthClientAuthorization {
    pub id: OAuthClientAuthorizationId,
    pub client_id: OAuthClientId,
    pub user_id: UserId,
    pub scopes: Scopes,
    /// Creation time of the first grant, in milliseconds since the epoch.
    pub created: i64,
}

/// A query parameter set for fetching clients by id strings.
#[derive(Debug)]
pub struct GetOAuthClientsRequest {
    pub ids: Vec<String>,
}

/// A query parameter naming the client a deletion request targets.
#[derive(Debug)]
pub struct DeleteOAuthClientQueryParam {
    pub client_id: String,
}

/// A joined row as the relational store returns it when fetching a client
/// with its redirect URIs aggregated into parallel arrays.
#[derive(Debug)]
pub struct ClientQueryResult {
    pub id: i64,
    pub name: String,
    pub icon_url: Option<String>,
    pub max_scopes: i64,
    pub secret_hash: String,
    pub created: i64,
    pub created_by: i64,
    pub uri_ids: Option<Vec<i64>>,
    pub uri_vals: Option<Vec<String>>,
}

/// The first client of `clients` with identifier `id`, if any.
pub open spec fn spec_find_client(clients: Seq<OAuthClient>, id: OAuthClientId) -> Option<
    OAuthClient,
>
    decreases clients.len(),
{
    if clients.len() == 0 {
        None
    } else if clients[0].id == id {
        Some(clients[0])
    } else {
        spec_find_client(clients.drop_first(), id)
    }
}

/// The index of the grant row for `(client_id, user_id)`, if any; rows are
/// scanned front to back.
pub open spec fn spec_find_authorization(
    auths: Seq<OAuthClientAuthorization>,
    client_id: OAuthClientId,
    user_id: UserId,
) -> Option<int>
    decreases auths.len(),
{
    if auths.len() == 0 {
        None
    } else if auths[0].client_id == client_id && auths[0].user_id == user_id {
        Some(0)
    } else {
        match spec_find_authorization(auths.drop_first(), client_id, user_id) {
            Some(i) => Some(i + 1),
            None => None,
        }
    }
}

/// A found grant index is in range and names a row for the pair sought.
pub proof fn lemma_find_authorization_in_range(
    auths: Seq<OAuthClientAuthorization>,
    client_id: OAuthClientId,
    user_id: UserId,
)
    ensures
        spec_find_authorization(auths, client_id, user_id) matches Some(k) ==> 0 <= k
            < auths.len() && auths[k].client_id == client_id && auths[k].user_id == user_id,
    decreases auths.len(),
{
    if auths.len() > 0 {
        lemma_find_authorization_in_range(auths.drop_first(), client_id, user_id);
    }
}

/// What a find result means: a found client carries the id sought and is a
/// row of the store; a miss means no row carries it.
pub proof fn lemma_find_client_props(clients: Seq<OAuthClient>, id: OAuthClientId)
    ensures
        spec_find_client(clients, id) matches Some(c) ==> c.id == id && clients.contains(c),
        spec_find_client(clients, id) is None ==> forall|i: int|
            0 <= i < clients.len() ==> (#[trigger] clients[i]).id != id,
    decreases clients.len(),
{
    if clients.len() > 0 {
        lemma_find_client_props(clients.drop_first(), id);
        if clients[0].id != id {
            match spec_find_client(clients.drop_first(), id) {
                Some(c) => {
                    let j = choose|j: int|
                        0 <= j < clients.drop_first().len() && clients.drop_first()[j] == c;
                    assert(clients[j + 1] == c);
                },
                None => {
                    assert forall|i: int|
                        0 <= i < clients.len() implies (#[trigger] clients[i]).id != id by {
                        if i > 0 {
                            assert(clients.drop_first()[i - 1] == clients[i]);
                        }
                    }
                },
            }
        }
    }
}

/// Appending a row leaves every earlier lookup untouched and makes the new
/// row's id findable.
pub proof fn lemma_find_client_push(clients: Seq<OAuthClient>, c: OAuthClient, id: OAuthClientId)
    ensures
        spec_find_client(clients.push(c), id) == (if spec_find_client(clients, id) is Some {
            spec_find_client(clients, id)
        } else if c.id == id {
            Some(c)
        } else {
            None
        }),
    decreases clients.len(),
{
    if clients.len() == 0 {
        assert(clients.push(c).len() == 1);
        assert(clients.push(c)[0] == c);
        assert(clients.push(c).drop_first() =~= Seq::<OAuthClient>::empty());
        if c.id != id {
            assert(spec_find_client(clients.push(c), id) == spec_find_client(
                Seq::<OAuthClient>::empty(),
                id,
            ));
        }
    } else {
        assert(clients.push(c)[0] == clients[0]);
        assert(clients.push(c).drop_first() =~= clients.drop_first().push(c));
        lemma_find_client_push(clients.drop_first(), c, id);
        if clients[0].id == id {
            assert(spec_find_client(clients, id) == Some(clients[0]));
            assert(spec_find_client(clients.push(c), id) == Some(clients[0]));
        } else {
            assert(spec_find_client(clients.push(c), id) == spec_find_client(
                clients.drop_first().push(c),
                id,
            ));
            assert(spec_find_client(clients, id) == spec_find_client(clients.drop_first(), id));
        }
    }
}

/// Every element of a filtered sequence is an element of the sequence.
pub proof fn lemma_filter_is_subset<A>(s: Seq<A>, pred: spec_fn(A) -> bool)
    ensures
        forall|a: int|
            0 <= a < s.filter(pred).len() ==> s.contains(#[trigger] s.filter(pred)[a]),
    decreases s.len(),
{
    reveal(Seq::filter);
    if s.len() > 0 {
        lemma_filter_is_subset(s.drop_last(), pred);
        assert forall|a: int|
            0 <= a < s.filter(pred).len() implies s.contains(#[trigger] s.filter(pred)[a]) by {
            let sub = s.drop_last().filter(pred);
            if a < sub.len() {
                assert(s.drop_last().contains(sub[a]));
                let j = choose|j: int| 0 <= j < s.drop_last().len() && s.drop_last()[j] == sub[a];
                assert(s[j] == sub[a]);
            } else {
                assert(s.filter(pred)[a] == s.last());
                assert(s[s.len() - 1] == s.last());
            }
        }
    }
}

/// A found grant index is out of bounds never; a miss means no row carries
/// the pair.
pub proof fn lemma_find_authorization_props(
    auths: Seq<OAuthClientAuthorization>,
    client_id: OAuthClientId,
    user_id: UserId,
)
    ensures
        spec_find_authorization(auths, client_id, user_id) is None ==> forall|i: int|
            0 <= i < auths.len() ==> !((#[trigger] auths[i]).client_id == client_id
                && auths[i].user_id == user_id),
    decreases auths.len(),
{
    if auths.len() > 0 {
        lemma_find_authorization_props(auths.drop_first(), client_id, user_id);
        if spec_find_authorization(auths, client_id, user_id) is None {
            assert forall|i: int|
                0 <= i < auths.len() implies !((#[trigger] auths[i]).client_id == client_id
                && auths[i].user_id == user_id) by {
                if i > 0 {
                    assert(auths.drop_first()[i - 1] == auths[i]);
                }
            }
        }
    }
}

/// Filtering a sequence of clients with pairwise distinct ids yields a
/// sequence of clients with pairwise distinct ids.
pub proof fn lemma_filter_clients_distinct(s: Seq<OAuthClient>, pred: spec_fn(OAuthClient) -> bool)
    requires
        forall|i: int, j: int| 0 <= i < j < s.len() ==> (#[trigger] s[i]).id != (#[trigger] s[j]).id,
    ensures
        forall|a: int, b: int|
            0 <= a < b < s.filter(pred).len() ==> (#[trigger] s.filter(pred)[a]).id != (
            #[trigger] s.filter(pred)[b]).id,
    decreases s.len(),
{
    reveal(Seq::filter);
    if s.len() > 0 {
        assert forall|i: int, j: int|
            0 <= i < j < s.drop_last().len() implies (#[trigger] s.drop_last()[i]).id != (
        #[trigger] s.drop_last()[j]).id by {
            assert(s.drop_last()[i] == s[i]);
            assert(s.drop_last()[j] == s[j]);
        }
        lemma_filter_clients_distinct(s.drop_last(), pred);
        lemma_filter_is_subset(s.drop_last(), pred);
        let sub = s.drop_last().filter(pred);
        if pred(s.last()) {
            assert forall|a: int, b: int|
                0 <= a < b < s.filter(pred).len() implies (#[trigger] s.filter(pred)[a]).id != (
            #[trigger] s.filter(pred)[b]).id by {
                if b == s.filter(pred).len() - 1 {
                    assert(s.filter(pred)[b] == s.last());
                    assert(s.drop_last().contains(sub[a]));
                    let j = choose|j: int|
                        0 <= j < s.drop_last().len() && s.drop_last()[j] == sub[a];
                    assert(s[j] == sub[a]);
                    assert(s[j].id != s[s.len() - 1].id);
                }
            }
        }
    }
}

/// Filtering a sequence of grants with pairwise distinct (client, user)
/// pairs yields one with pairwise distinct pairs.
pub proof fn lemma_filter_authorizations_distinct(
    s: Seq<OAuthClientAuthorization>,
    pred: spec_fn(OAuthClientAuthorization) -> bool,
)
    requires
        forall|i: int, j: int|
            0 <= i < j < s.len() ==> !((#[trigger] s[i]).client_id == (#[trigger] s[j]).client_id
                && s[i].user_id == s[j].user_id),
    ensures
        forall|a: int, b: int|
            0 <= a < b < s.filter(pred).len() ==> !((#[trigger] s.filter(pred)[a]).client_id == (
            #[trigger] s.filter(pred)[b]).client_id && s.filter(pred)[a].user_id == s.filter(
                pred,
            )[b].user_id),
    decreases s.len(),
{
    reveal(Seq::filter);
    if s.len() > 0 {
        assert forall|i: int, j: int|
            0 <= i < j < s.drop_last().len() implies !((#[trigger] s.drop_last()[i]).client_id == (
        #[trigger] s.drop_last()[j]).client_id && s.drop_last()[i].user_id
            == s.drop_last()[j].user_id) by {
            assert(s.drop_last()[i] == s[i]);
            assert(s.drop_last()[j] == s[j]);
        }
        lemma_filter_authorizations_distinct(s.drop_last(), pred);
        lemma_filter_is_subset(s.drop_last(), pred);
        let sub = s.drop_last().filter(pred);
        if pred(s.last()) {
            assert forall|a: int, b: int|
                0 <= a < b < s.filter(pred).len() implies !((
            #[trigger] s.filter(pred)[a]).client_id == (#[trigger] s.filter(pred)[b]).client_id
                && s.filter(pred)[a].user_id == s.filter(pred)[b].user_id) by {
                if b == s.filter(pred).len() - 1 {
                    assert(s.filter(pred)[b] == s.last());
                    assert(s.drop_last().contains(sub[a]));
                    let j = choose|j: int|
                        0 <= j < s.drop_last().len() && s.drop_last()[j] == sub[a];
                    assert(s[j] == sub[a]);
                    assert(s[s.len() - 1] == s.last());
                }
            }
        }
    }
}

/// The clients of `clients` whose id is not `id`, in store order.
pub open spec fn spec_clients_without(clients: Seq<OAuthClient>, id: OAuthClientId) -> Seq<
    OAuthClient,
> {
    clients.filter(|c: OAuthClient| c.id != id)
}

/// The grants of `auths` not referencing client `id`, in store order.
pub open spec fn spec_authorizations_without(
    auths: Seq<OAuthClientAuthorization>,
    id: OAuthClientId,
) -> Seq<OAuthClientAuthorization> {
    auths.filter(|a: OAuthClientAuthorization| a.client_id != id)
}

/// The grants of `auths` not recorded for `(client_id, user_id)`, in store
/// order.
pub open spec fn spec_authorizations_without_pair(
    auths: Seq<OAuthClientAuthorization>,
    client_id: OAuthClientId,
    user_id: UserId,
) -> Seq<OAuthClientAuthorization> {
    auths.filter(
        |a: OAuthClientAuthorization| !(a.client_id == client_id && a.user_id == user_id),
    )
}

/// The clients of `clients` created by `user_id`, in store order.
pub open spec fn spec_owned_clients(clients: Seq<OAuthClient>, user_id: UserId) -> Seq<
    OAuthClient,
> {
    clients.filter(|c: OAuthClient| c.created_by == user_id)
}

/// Well-formedness of a client row on its own: its redirect URIs carry its
/// id and are pairwise distinct by URI string.
pub open spec fn spec_client_rows_wf(client: OAuthClient) -> bool {
    &&& forall|a: int|
        0 <= a < client.redirect_uris@.len() ==> (#[trigger] client.redirect_uris@[a]).client_id
            == client.id
    &&& forall|a: int, b: int|
        0 <= a < b < client.redirect_uris@.len() ==> client.redirect_uris@[a].uri@
            != client.redirect_uris@[b].uri@
}

/// The in-memory model of the client store.
pub struct ClientRegistry {
    pub clients: Vec<OAuthClient>,
    pub authorizations: Vec<OAuthClientAuthorization>,
    /// Identifier source for clients: above every client id in the store.
    pub next_client_id: u64,
    /// Identifier source for redirect URI rows.
    pub next_uri_id: u64,
    /// Identifier source for grant rows.
    pub next_authorization_id: u64,
}

impl ClientRegistry {
    /// The store's invariant: unique client ids below the id source, each
    /// client's rows well-formed, one grant per (client, user), grant ids
    /// below their source, and no grant referencing an absent client.
    pub open spec fn wf(self) -> bool {
        &&& forall|i: int, j: int|
            0 <= i < j < self.clients@.len() ==> (#[trigger] self.clients@[i]).id != (
            #[trigger] self.clients@[j]).id
        &&& forall|i: int|
            0 <= i < self.clients@.len() ==> (#[trigger] self.clients@[i]).id.0
                < self.next_client_id
        &&& forall|i: int|
            0 <= i < self.clients@.len() ==> spec_client_rows_wf(#[trigger] self.clients@[i])
        &&& forall|i: int, j: int|
            0 <= i < self.clients@.len() && 0 <= j < self.clients@[i].redirect_uris@.len()
                ==> (#[trigger] self.clients@[i].redirect_uris@[j]).id.0 < self.next_uri_id
        &&& forall|i: int, j: int|
            0 <= i < j < self.authorizations@.len() ==> !((#[trigger] self.authorizations@[i]).client_id
                == (#[trigger] self.authorizations@[j]).client_id
                && self.authorizations@[i].user_id == self.authorizations@[j].user_id)
        &&& forall|i: int|
            0 <= i < self.authorizations@.len() ==> (#[trigger] self.authorizations@[i]).id.0
                < self.next_authorization_id
        &&& forall|i: int|
            0 <= i < self.authorizations@.len() ==> spec_find_client(
                self.clients@,
                (#[trigger] self.authorizations@[i]).client_id,
            ) is Some
    }

    /// The client registered under `id`, if any.
    pub open spec fn spec_client(self, id: OAuthClientId) -> Option<OAuthClient> {
        spec_find_client(self.clients@, id)
    }

    /// An empty registry.
    pub fn new() -> (r: ClientRegistry)
        ensures
            r.wf(),
            r.clients@ == Seq::<OAuthClient>::empty(),
            r.authorizations@ == Seq::<OAuthClientAuthorization>::empty(),
            r.next_client_id == 0,
            r.next_uri_id == 0,
            r.next_authorization_id == 0,
    {
        ClientRegistry {
            clients: Vec::new(),
            authorizations: Vec::new(),
            next_client_id: 0,
            next_uri_id: 0,
            next_authorization_id: 0,
        }
    }

    /// The grant recorded for `(client_id, user_id)`, if any.
    pub fn get_authorization(
        &self,
        client_id: OAuthClientId,
        user_id: UserId,
    ) -> (r: Option<&OAuthClientAuthorization>)
        ensures
            match r {
                Some(a) => {
                    &&& spec_find_authorization(self.authorizations@, client_id, user_id) matches
                        Some(i) && self.authorizations@[i] == *a
                },
                None => spec_find_authorization(
                    self.authorizations@,
                    client_id,
                    user_id,
                ) is None,
            },
    {
        let ghost auths = self.authorizations@;
        let n = self.authorizations.len();
        let mut i: usize = 0;
        assert(auths.skip(0) =~= auths);
        proof {
            lemma_find_authorization_in_range(auths, client_id, user_id);
        }
        while i < n
            invariant
                0 <= i <= n,
                n == auths.len(),
                auths == self.authorizations@,
                match spec_find_authorization(auths, client_id, user_id) {
                    Some(k) => k >= i && spec_find_authorization(
                        auths.skip(i as int),
                        client_id,
                        user_id,
                    ) == Some(k - i),
                    None => spec_find_authorization(
                        auths.skip(i as int),
                        client_id,
                        user_id,
                    ) is None,
                },
            decreases n - i,
        {
            assert(auths.skip(i as int).drop_first() =~= auths.skip(i as int + 1));
            assert(auths.skip(i as int)[0] == auths[i as int]);
            proof {
                lemma_find_authorization_in_range(auths.skip(i as int + 1), client_id, user_id);
            }
            if self.authorizations[i].client_id.0 == client_id.0
                && self.authorizations[i].user_id.0 == user_id.0 {
                assert(spec_find_authorization(auths.skip(i as int), client_id, user_id) == Some(
                    0int,
                ));
                return Some(&self.authorizations[i]);
            }
            i = i + 1;
        }
        assert(auths.skip(n as int) =~= Seq::<OAuthClientAuthorization>::empty());
        None
    }
}

impl OAuthClient {
    /// The client registered under `id`, if any: a point lookup in the
    /// store.
    pub fn get<'a>(id: OAuthClientId, registry: &'a ClientRegistry) -> (r: Option<&'a OAuthClient>)
        ensures
            match r {
                Some(c) => spec_find_client(registry.clients@, id) == Some(*c),
                None => spec_find_client(registry.clients@, id) is None,
            },
    {
        let ghost clients = registry.clients@;
        let n = registry.clients.len();
        let mut i: usize = 0;
        assert(clients.skip(0) =~= clients);
        while i < n
            invariant
                0 <= i <= n,
                n == clients.len(),
                clients == registry.clients@,
                spec_find_client(clients, id) == spec_find_client(clients.skip(i as int), id),
            decreases n - i,
        {
            assert(clients.skip(i as int).drop_first() =~= clients.skip(i as int + 1));
            assert(clients.skip(i as int)[0] == clients[i as int]);
            if registry.clients[i].id.0 == id.0 {
                return Some(&registry.clients[i]);
            }
            i = i + 1;
        }
        assert(clients.skip(n as int) =~= Seq::<OAuthClient>::empty());
        None
    }

    /// Every client created by `user_id`, in store order.
    pub fn get_all_user_clients<'a>(user_id: UserId, registry: &'a ClientRegistry) -> (r: Vec<
        &'a OAuthClient,
    >)
        ensures
            r@.map_values(|c: &OAuthClient| *c) == spec_owned_clients(registry.clients@, user_id),
    {
        let ghost clients = registry.clients@;
        let n = registry.clients.len();
        let mut out: Vec<&'a OAuthClient> = Vec::new();
        let mut i: usize = 0;
        assert(clients.take(0) =~= Seq::<OAuthClient>::empty());
        assert(out@.map_values(|c: &OAuthClient| *c) =~= spec_owned_clients(
            clients.take(0),
            user_id,
        ));
        while i < n
            invariant
                0 <= i <= n,
                n == clients.len(),
                clients == registry.clients@,
                out@.map_values(|c: &OAuthClient| *c) == spec_owned_clients(
                    clients.take(i as int),
                    user_id,
                ),
            decreases n - i,
        {
            let ghost prev = out@;
            assert(clients.take(i as int + 1).drop_last() =~= clients.take(i as int));
            assert(clients.take(i as int + 1).last() == clients[i as int]);
            reveal_with_fuel(Seq::filter, 2);
            if registry.clients[i].created_by.0 == user_id.0 {
                out.push(&registry.clients[i]);
            }
            assert(out@.map_values(|c: &OAuthClient| *c) =~= spec_owned_clients(
                clients.take(i as int + 1),
                user_id,
            ));
            i = i + 1;
        }
        assert(clients.take(n as int) =~= clients);
        out
    }

    /// A client row assembled from a joined store row: the aggregated
    /// redirect-URI id and value arrays are zipped back into URI rows, the
    /// stored scope integer is decoded, and the signed row ids become the
    /// model's identifiers.
    pub fn from_query_result(r: ClientQueryResult) -> (c: OAuthClient)
        ensures
            c.id.0 == r.id as u64,
            c.name == r.name,
            c.icon_url == r.icon_url,
            c.max_scopes == Scopes::spec_from_postgres(r.max_scopes),
            c.secret_hash == r.secret_hash,
            c.created == r.created,
            c.created_by.0 == r.created_by as u64,
            match (r.uri_ids, r.uri_vals) {
                (Some(ids), Some(vals)) => {
                    &&& c.redirect_uris@.len() == (if ids@.len() <= vals@.len() {
                        ids@.len()
                    } else {
                        vals@.len()
                    })
                    &&& forall|i: int|
                        0 <= i < c.redirect_uris@.len() ==> (#[trigger] c.redirect_uris@[i]).id.0
                            == ids@[i] as u64 && c.redirect_uris@[i].client_id.0 == r.id as u64
                            && c.redirect_uris@[i].uri == vals@[i]
                },
                _ => c.redirect_uris@.len() == 0,
            },
    {
        let ClientQueryResult {
            id,
            name,
            icon_url,
            max_scopes,
            secret_hash,
            created,
            created_by,
            uri_ids,
            uri_vals,
        } = r;
        let mut redirect_uris: Vec<OAuthRedirectUri> = Vec::new();
        match (uri_ids, uri_vals) {
            (Some(ids), Some(vals)) => {
                let m = if ids.len() <= vals.len() {
                    ids.len()
                } else {
                    vals.len()
                };
                let mut i: usize = 0;
                while i < m
                    invariant
                        0 <= i <= m,
                        m <= ids@.len(),
                        m <= vals@.len(),
                        m == (if ids@.len() <= vals@.len() {
                            ids@.len()
                        } else {
                            vals@.len()
                        }),
                        redirect_uris@.len() == i,
                        forall|j: int|
                            0 <= j < i ==> (#[trigger] redirect_uris@[j]).id.0 == ids@[j] as u64
                                && redirect_uris@[j].client_id.0 == id as u64
                                && redirect_uris@[j].uri == vals@[j],
                    decreases m - i,
                {
                    let uri = vals[i].clone();
                    redirect_uris.push(
                        OAuthRedirectUri {
                            id: OAuthRedirectUriId(ids[i] as u64),
                            client_id: OAuthClientId(id as u64),
                            uri,
                        },
                    );
                    i = i + 1;
                }
            },
            _ => {},
        }
        OAuthClient {
            id: OAuthClientId(id as u64),
            name,
            icon_url,
            max_scopes: Scopes::from_postgres(max_scopes),
            secret_hash,
            redirect_uris,
            created,
            created_by: UserId(created_by as u64),
        }
    }

    /// Stores `self` as a new client row. Fails with `ValidationError` if
    /// the row is malformed (a redirect URI not carrying this client's id,
    /// two redirect URIs with the same value, or an identifier at the very
    /// end of the id space), and with `StoreError` if the id is already
    /// taken; nothing changes on failure.
    pub fn insert(self, registry: &mut ClientRegistry) -> (r: Result<(), OAuthError>)
        requires
            old(registry).wf(),
        ensures
            final(registry).wf(),
            match r {
                Ok(()) => {
                    &&& !spec_insert_malformed(self)
                    &&& spec_find_client(old(registry).clients@, self.id) is None
                    &&& final(registry).clients@ == old(registry).clients@.push(self)
                    &&& final(registry).authorizations@ == old(registry).authorizations@
                    &&& final(registry).next_authorization_id == old(
                        registry,
                    ).next_authorization_id
                },
                Err(OAuthError::ValidationError) => spec_insert_malformed(self) && *final(registry)
                    == *old(registry),
                Err(OAuthError::StoreError) => {
                    &&& !spec_insert_malformed(self)
                    &&& spec_find_client(old(registry).clients@, self.id) is Some
                    &&& *final(registry) == *old(registry)
                },
                Err(_) => false,
            },
    {
        if self.id.0 == u64::MAX {
            return Err(OAuthError::ValidationError);
        }
        let n_uris = self.redirect_uris.len();
        let mut a: usize = 0;
        while a < n_uris
            invariant
                0 <= a <= n_uris,
                n_uris == self.redirect_uris@.len(),
                self.id.0 < u64::MAX,
                *registry == *old(registry),
                old(registry).wf(),
                forall|x: int|
                    0 <= x < a ==> (#[trigger] self.redirect_uris@[x]).client_id == self.id
                        && self.redirect_uris@[x].id.0 < u64::MAX,
                forall|x: int, y: int|
                    0 <= x < y < n_uris && x < a ==> self.redirect_uris@[x].uri@
                        != self.redirect_uris@[y].uri@,
            decreases n_uris - a,
        {
            if self.redirect_uris[a].client_id.0 != self.id.0
                || self.redirect_uris[a].id.0 == u64::MAX {
                return Err(OAuthError::ValidationError);
            }
            let mut b: usize = a + 1;
            while b < n_uris
                invariant
                    a < b <= n_uris,
                    n_uris == self.redirect_uris@.len(),
                    *registry == *old(registry),
                    old(registry).wf(),
                    forall|y: int|
                        a < y < b ==> self.redirect_uris@[a as int].uri@
                            != (#[trigger] self.redirect_uris@[y]).uri@,
                decreases n_uris - b,
            {
                if str_eq(self.redirect_uris[a].uri.as_str(), self.redirect_uris[b].uri.as_str()) {
                    return Err(OAuthError::ValidationError);
                }
                b = b + 1;
            }
            a = a + 1;
        }
        assert(!spec_insert_malformed(self));
        if OAuthClient::get(self.id, registry).is_some() {
            return Err(OAuthError::StoreError);
        }
        proof {
            lemma_find_client_props(old(registry).clients@, self.id);
        }
        let ghost pre = *registry;
        if registry.next_client_id <= self.id.0 {
            registry.next_client_id = self.id.0 + 1;
        }
        let mut k: usize = 0;
        let n = self.redirect_uris.len();
        while k < n
            invariant
                0 <= k <= n,
                n == self.redirect_uris@.len(),
                registry.clients@ == pre.clients@,
                registry.authorizations@ == pre.authorizations@,
                registry.next_authorization_id == pre.next_authorization_id,
                registry.next_client_id >= pre.next_client_id,
                registry.next_client_id > self.id.0,
                registry.next_uri_id >= pre.next_uri_id,
                forall|x: int|
                    0 <= x < n ==> (#[trigger] self.redirect_uris@[x]).id.0 < u64::MAX,
                forall|x: int|
                    0 <= x < k ==> (#[trigger] self.redirect_uris@[x]).id.0 < registry.next_uri_id,
            decreases n - k,
        {
            if registry.next_uri_id <= self.redirect_uris[k].id.0 {
                registry.next_uri_id = self.redirect_uris[k].id.0 + 1;
            }
            k = k + 1;
        }
        let ghost mid = *registry;
        registry.clients.push(self);
        proof {
            assert forall|i: int|
                0 <= i < registry.authorizations@.len() implies spec_find_client(
                registry.clients@,
                (#[trigger] registry.authorizations@[i]).client_id,
            ) is Some by {
                lemma_find_client_push(
                    pre.clients@,
                    self,
                    registry.authorizations@[i].client_id,
                );
            }
            assert forall|i: int|
                0 <= i < registry.clients@.len() implies (
            #[trigger] registry.clients@[i]).id.0 < registry.next_client_id by {}
        }
        Ok(())
    }
}

impl OAuthClient {
    /// Deletes the client registered under `id`, together with its redirect
    /// URIs and every grant referencing it: the cascade leaves no row
    /// behind that mentions a removed client. Removing an absent client
    /// changes nothing.
    pub fn remove(id: OAuthClientId, registry: &mut ClientRegistry)
        requires
            old(registry).wf(),
        ensures
            final(registry).wf(),
            final(registry).clients@ == spec_clients_without(old(registry).clients@, id),
            final(registry).authorizations@ == spec_authorizations_without(
                old(registry).authorizations@,
                id,
            ),
            final(registry).next_client_id == old(registry).next_client_id,
            final(registry).next_uri_id == old(registry).next_uri_id,
            final(registry).next_authorization_id == old(registry).next_authorization_id,
            forall|i: int|
                0 <= i < final(registry).clients@.len() ==> (
                #[trigger] final(registry).clients@[i]).id != id,
            forall|i: int|
                0 <= i < final(registry).authorizations@.len() ==> (
                #[trigger] final(registry).authorizations@[i]).client_id != id,
    {
        let ghost pre = *old(registry);
        let ghost pc = |c: OAuthClient| c.id != id;
        let ghost pa = |a: OAuthClientAuthorization| a.client_id != id;

        let mut source_clients: Vec<OAuthClient> = Vec::new();
        core::mem::swap(&mut registry.clients, &mut source_clients);
        let ghost all_clients = source_clients@;
        let total_clients = source_clients.len();
        let mut k: usize = 0;
        assert(all_clients.take(0) =~= Seq::<OAuthClient>::empty());
        assert(registry.clients@ =~= spec_clients_without(all_clients.take(0), id));
        assert(all_clients.skip(0) =~= all_clients);
        while k < total_clients
            invariant
                0 <= k <= total_clients,
                total_clients == all_clients.len(),
                source_clients@ == all_clients.skip(k as int),
                registry.clients@ == spec_clients_without(all_clients.take(k as int), id),
                registry.authorizations@ == pre.authorizations@,
                registry.next_client_id == pre.next_client_id,
                registry.next_uri_id == pre.next_uri_id,
                registry.next_authorization_id == pre.next_authorization_id,
            decreases total_clients - k,
        {
            assert(all_clients.take(k as int + 1).drop_last() =~= all_clients.take(k as int));
            assert(all_clients.take(k as int + 1).last() == all_clients[k as int]);
            assert(source_clients@[0] == all_clients[k as int]);
            let row = source_clients.remove(0);
            assert(source_clients@ =~= all_clients.skip(k as int + 1));
            reveal_with_fuel(Seq::filter, 2);
            if row.id.0 != id.0 {
                registry.clients.push(row);
            }
            assert(registry.clients@ =~= spec_clients_without(
                all_clients.take(k as int + 1),
                id,
            ));
            k = k + 1;
        }
        assert(all_clients.take(total_clients as int) =~= all_clients);

        let mut source_auths: Vec<OAuthClientAuthorization> = Vec::new();
        core::mem::swap(&mut registry.authorizations, &mut source_auths);
        let ghost all_auths = source_auths@;
        let total_auths = source_auths.len();
        let mut m: usize = 0;
        assert(all_auths.take(0) =~= Seq::<OAuthClientAuthorization>::empty());
        assert(registry.authorizations@ =~= spec_authorizations_without(all_auths.take(0), id));
        assert(all_auths.skip(0) =~= all_auths);
        while m < total_auths
            invariant
                0 <= m <= total_auths,
                total_auths == all_auths.len(),
                source_auths@ == all_auths.skip(m as int),
                registry.authorizations@ == spec_authorizations_without(
                    all_auths.take(m as int),
                    id,
                ),
                registry.clients@ == spec_clients_without(pre.clients@, id),
                registry.next_client_id == pre.next_client_id,
                registry.next_uri_id == pre.next_uri_id,
                registry.next_authorization_id == pre.next_authorization_id,
            decreases total_auths - m,
        {
            assert(all_auths.take(m as int + 1).drop_last() =~= all_auths.take(m as int));
            assert(all_auths.take(m as int + 1).last() == all_auths[m as int]);
            assert(source_auths@[0] == all_auths[m as int]);
            let row = source_auths.remove(0);
            assert(source_auths@ =~= all_auths.skip(m as int + 1));
            reveal_with_fuel(Seq::filter, 2);
            if row.client_id.0 != id.0 {
                registry.authorizations.push(row);
            }
            assert(registry.authorizations@ =~= spec_authorizations_without(
                all_auths.take(m as int + 1),
                id,
            ));
            m = m + 1;
        }
        assert(all_auths.take(total_auths as int) =~= all_auths);

        proof {
            let kept_clients = registry.clients@;
            let kept_auths = registry.authorizations@;
            lemma_filter_clients_distinct(pre.clients@, pc);
            lemma_filter_is_subset(pre.clients@, pc);
            lemma_filter_authorizations_distinct(pre.authorizations@, pa);
            lemma_filter_is_subset(pre.authorizations@, pa);
            assert forall|i: int|
                0 <= i < kept_clients.len() implies (#[trigger] kept_clients[i]).id.0
                < registry.next_client_id && spec_client_rows_wf(kept_clients[i]) by {
                assert(pre.clients@.contains(kept_clients[i]));
                let j = choose|j: int|
                    0 <= j < pre.clients@.len() && pre.clients@[j] == kept_clients[i];
                assert(pre.clients@[j].id.0 < pre.next_client_id);
                assert(spec_client_rows_wf(pre.clients@[j]));
            }
            assert forall|i: int, j: int|
                0 <= i < kept_clients.len() && 0 <= j
                    < kept_clients[i].redirect_uris@.len() implies (
            #[trigger] kept_clients[i].redirect_uris@[j]).id.0 < registry.next_uri_id by {
                assert(pre.clients@.contains(kept_clients[i]));
                let x = choose|x: int|
                    0 <= x < pre.clients@.len() && pre.clients@[x] == kept_clients[i];
                assert(pre.clients@[x].redirect_uris@[j].id.0 < pre.next_uri_id);
            }
            assert forall|i: int|
                0 <= i < kept_auths.len() implies (#[trigger] kept_auths[i]).id.0
                < registry.next_authorization_id && spec_find_client(
                kept_clients,
                kept_auths[i].client_id,
            ) is Some by {
                assert(pre.authorizations@.contains(kept_auths[i]));
                let j = choose|j: int|
                    0 <= j < pre.authorizations@.len() && pre.authorizations@[j] == kept_auths[i];
                assert(pre.authorizations@[j].id.0 < pre.next_authorization_id);
                let cid = kept_auths[i].client_id;
                lemma_find_client_props(pre.clients@, cid);
                match spec_find_client(pre.clients@, cid) {
                    Some(c) => {
                        let x = choose|x: int|
                            0 <= x < pre.clients@.len() && pre.clients@[x] == c;
                        assert(pa(kept_auths[i]));
                        assert(cid != id);
                        assert(pc(c));
                        pre.clients@.lemma_filter_contains(pc, x);
                        lemma_find_client_props(kept_clients, cid);
                        match spec_find_client(kept_clients, cid) {
                            Some(_) => {},
                            None => {
                                let y = choose|y: int|
                                    0 <= y < kept_clients.len() && kept_clients[y] == c;
                                assert(kept_clients[y].id == cid);
                            },
                        }
                    },
                    None => {},
                }
            }
        }
    }
}

impl OAuthClient {
    /// Writes this value's name, icon URL and scope ceiling over the stored
    /// row with the same id; the secret and the redirect URIs are not
    /// touched. Only the owner may edit: if no client is stored under the
    /// id, or the stored row is not owned by `acting_user`, the same
    /// `UnknownClient` comes back, so a caller cannot probe for ids it does
    /// not own.
    pub fn update_editable_fields(
        &self,
        acting_user: UserId,
        registry: &mut ClientRegistry,
    ) -> (r: Result<(), OAuthError>)
        requires
            old(registry).wf(),
        ensures
            final(registry).wf(),
            match r {
                Ok(()) => {
                    &&& spec_find_client(old(registry).clients@, self.id) matches Some(row)
                        && row.created_by == acting_user
                    &&& exists|i: int|
                        {
                            &&& 0 <= i < old(registry).clients@.len()
                            &&& (#[trigger] old(registry).clients@[i]).id == self.id
                            &&& final(registry).clients@ == old(registry).clients@.update(
                                i,
                                OAuthClient {
                                    id: old(registry).clients@[i].id,
                                    name: self.name,
                                    icon_url: self.icon_url,
                                    max_scopes: self.max_scopes,
                                    secret_hash: old(registry).clients@[i].secret_hash,
                                    redirect_uris: old(registry).clients@[i].redirect_uris,
                                    created: old(registry).clients@[i].created,
                                    created_by: old(registry).clients@[i].created_by,
                                },
                            )
                        }
                    &&& final(registry).authorizations@ == old(registry).authorizations@
                    &&& final(registry).next_client_id == old(registry).next_client_id
                    &&& final(registry).next_uri_id == old(registry).next_uri_id
                    &&& final(registry).next_authorization_id == old(
                        registry,
                    ).next_authorization_id
                },
                Err(OAuthError::UnknownClient) => {
                    &&& match spec_find_client(old(registry).clients@, self.id) {
                        None => true,
                        Some(row) => row.created_by != acting_user,
                    }
                    &&& *final(registry) == *old(registry)
                },
                Err(_) => false,
            },
    {
        let ghost clients = registry.clients@;
        let n = registry.clients.len();
        let mut i: usize = 0;
        assert(clients.skip(0) =~= clients);
        while i < n
            invariant
                0 <= i <= n,
                n == clients.len(),
                clients == registry.clients@,
                *registry == *old(registry),
                old(registry).wf(),
                spec_find_client(clients, self.id) == spec_find_client(
                    clients.skip(i as int),
                    self.id,
                ),
            decreases n - i,
        {
            assert(clients.skip(i as int).drop_first() =~= clients.skip(i as int + 1));
            assert(clients.skip(i as int)[0] == clients[i as int]);
            if registry.clients[i].id.0 == self.id.0 {
                assert(spec_find_client(clients, self.id) == Some(clients[i as int]));
                if registry.clients[i].created_by.0 != acting_user.0 {
                    return Err(OAuthError::UnknownClient);
                }
                let row = registry.clients.remove(i);
                let icon_url = match &self.icon_url {
                    Some(u) => Some(u.clone()),
                    None => None,
                };
                let updated = OAuthClient {
                    id: row.id,
                    name: self.name.clone(),
                    icon_url,
                    max_scopes: self.max_scopes,
                    secret_hash: row.secret_hash,
                    redirect_uris: row.redirect_uris,
                    created: row.created,
                    created_by: row.created_by,
                };
                registry.clients.insert(i, updated);
                assert(registry.clients@ =~= clients.update(
                    i as int,
                    OAuthClient {
                        id: clients[i as int].id,
                        name: self.name,
                        icon_url: self.icon_url,
                        max_scopes: self.max_scopes,
                        secret_hash: clients[i as int].secret_hash,
                        redirect_uris: clients[i as int].redirect_uris,
                        created: clients[i as int].created,
                        created_by: clients[i as int].created_by,
                    },
                ));
                proof {
                    let post = registry.clients@;
                    assert forall|k: int|
                        0 <= k < registry.authorizations@.len() implies spec_find_client(
                        post,
                        (#[trigger] registry.authorizations@[k]).client_id,
                    ) is Some by {
                        let cid = registry.authorizations@[k].client_id;
                        lemma_find_client_props(clients, cid);
                        lemma_find_client_props(post, cid);
                        match spec_find_client(clients, cid) {
                            Some(c) => {
                                let x = choose|x: int|
                                    0 <= x < clients.len() && clients[x] == c;
                                assert(post[x].id == cid);
                            },
                            None => {},
                        }
                    }
                }
                return Ok(());
            }
            i = i + 1;
        }
        assert(clients.skip(n as int) =~= Seq::<OAuthClient>::empty());
        Err(OAuthError::UnknownClient)
    }
}

impl ClientRegistry {
    /// Deletes the grant recorded for `(client_id, user_id)`, as when the
    /// user revokes a client's access; nothing changes if none is
    /// recorded.
    pub fn revoke_authorization(&mut self, client_id: OAuthClientId, user_id: UserId)
        requires
            old(self).wf(),
        ensures
            final(self).wf(),
            final(self).authorizations@ == spec_authorizations_without_pair(
                old(self).authorizations@,
                client_id,
                user_id,
            ),
            final(self).clients@ == old(self).clients@,
            final(self).next_client_id == old(self).next_client_id,
            final(self).next_uri_id == old(self).next_uri_id,
            final(self).next_authorization_id == old(self).next_authorization_id,
            forall|i: int|
                0 <= i < final(self).authorizations@.len() ==> !((
                #[trigger] final(self).authorizations@[i]).client_id == client_id
                    && final(self).authorizations@[i].user_id == user_id),
    {
        let ghost pre = *old(self);
        let ghost pa = |a: OAuthClientAuthorization|
            !(a.client_id == client_id && a.user_id == user_id);
        let mut source: Vec<OAuthClientAuthorization> = Vec::new();
        core::mem::swap(&mut self.authorizations, &mut source);
        let ghost all = source@;
        let total = source.len();
        let mut m: usize = 0;
        assert(all.take(0) =~= Seq::<OAuthClientAuthorization>::empty());
        assert(self.authorizations@ =~= spec_authorizations_without_pair(
            all.take(0),
            client_id,
            user_id,
        ));
        assert(all.skip(0) =~= all);
        while m < total
            invariant
                0 <= m <= total,
                total == all.len(),
                source@ == all.skip(m as int),
                self.authorizations@ == spec_authorizations_without_pair(
                    all.take(m as int),
                    client_id,
                    user_id,
                ),
                self.clients@ == pre.clients@,
                self.next_client_id == pre.next_client_id,
                self.next_uri_id == pre.next_uri_id,
                self.next_authorization_id == pre.next_authorization_id,
            decreases total - m,
        {
            assert(all.take(m as int + 1).drop_last() =~= all.take(m as int));
            assert(all.take(m as int + 1).last() == all[m as int]);
            assert(source@[0] == all[m as int]);
            let row = source.remove(0);
            assert(source@ =~= all.skip(m as int + 1));
            reveal_with_fuel(Seq::filter, 2);
            if !(row.client_id.0 == client_id.0 && row.user_id.0 == user_id.0) {
                self.authorizations.push(row);
            }
            assert(self.authorizations@ =~= spec_authorizations_without_pair(
                all.take(m as int + 1),
                client_id,
                user_id,
            ));
            m = m + 1;
        }
        assert(all.take(total as int) =~= all);
        proof {
            let kept = self.authorizations@;
            lemma_filter_authorizations_distinct(pre.authorizations@, pa);
            lemma_filter_is_subset(pre.authorizations@, pa);
            assert forall|i: int|
                0 <= i < kept.len() implies (#[trigger] kept[i]).id.0
                < self.next_authorization_id && spec_find_client(
                self.clients@,
                kept[i].client_id,
            ) is Some by {
                assert(pre.authorizations@.contains(kept[i]));
                let j = choose|j: int|
                    0 <= j < pre.authorizations@.len() && pre.authorizations@[j] == kept[i];
                assert(pre.authorizations@[j].id.0 < pre.next_authorization_id);
            }
        }
    }
}

/// Whether a registration request is rejected at the boundary: no redirect
/// URI supplied, a URI that is not a well-formed absolute URI, or the same
/// URI supplied twice.
pub open spec fn spec_register_invalid(uris: Seq<String>) -> bool {
    ||| uris.len() == 0
    ||| exists|i: int| 0 <= i < uris.len() && !spec_is_absolute_uri((#[trigger] uris[i])@)
    ||| exists|i: int, j: int|
        0 <= i < j < uris.len() && (#[trigger] uris[i])@ == (#[trigger] uris[j])@
}

impl ClientRegistry {
    /// Registers a new client: validates the redirect URIs, assigns fresh
    /// identifiers from the registry's sources, and stores the row with
    /// the already-hashed secret. Fails with `ValidationError` on
    /// malformed input and with `StoreError` when the identifier space is
    /// exhausted; nothing changes on failure.
    pub fn register(
        &mut self,
        name: String,
        icon_url: Option<String>,
        max_scopes: Scopes,
        secret_hash: String,
        redirect_uris: Vec<String>,
        created_by: UserId,
        now: i64,
    ) -> (r: Result<OAuthClientId, OAuthError>)
        requires
            old(self).wf(),
        ensures
            final(self).wf(),
            match r {
                Err(OAuthError::ValidationError) => spec_register_invalid(redirect_uris@)
                    && *final(self) == *old(self),
                Err(OAuthError::StoreError) => {
                    &&& !spec_register_invalid(redirect_uris@)
                    &&& (old(self).next_client_id == u64::MAX || redirect_uris@.len() > u64::MAX
                        - old(self).next_uri_id)
                    &&& *final(self) == *old(self)
                },
                Err(_) => false,
                Ok(id) => {
                    &&& !spec_register_invalid(redirect_uris@)
                    &&& id.0 == old(self).next_client_id
                    &&& final(self).next_client_id == old(self).next_client_id + 1
                    &&& final(self).next_uri_id == old(self).next_uri_id + redirect_uris@.len()
                    &&& final(self).next_authorization_id == old(self).next_authorization_id
                    &&& final(self).authorizations@ == old(self).authorizations@
                    &&& final(self).clients@.len() == old(self).clients@.len() + 1
                    &&& final(self).clients@ == old(self).clients@.push(
                        final(self).clients@.last(),
                    )
                    &&& {
                        let c = final(self).clients@.last();
                        &&& c.id == id
                        &&& c.name == name
                        &&& c.icon_url == icon_url
                        &&& c.max_scopes == max_scopes
                        &&& c.secret_hash == secret_hash
                        &&& c.created == now
                        &&& c.created_by == created_by
                        &&& c.redirect_uris@.len() == redirect_uris@.len()
                        &&& forall|i: int|
                            0 <= i < redirect_uris@.len() ==> {
                                &&& (#[trigger] c.redirect_uris@[i]).id.0 == old(self).next_uri_id
                                    + i
                                &&& c.redirect_uris@[i].client_id == id
                                &&& c.redirect_uris@[i].uri == redirect_uris@[i]
                            }
                    }
                },
            },
    {
        let ghost uris0 = redirect_uris@;
        let n = redirect_uris.len();
        if n == 0 {
            return Err(OAuthError::ValidationError);
        }
        let mut a: usize = 0;
        while a < n
            invariant
                0 <= a <= n,
                n == uris0.len(),
                redirect_uris@ == uris0,
                *self == *old(self),
                old(self).wf(),
                forall|x: int| 0 <= x < a ==> spec_is_absolute_uri((#[trigger] uris0[x])@),
                forall|x: int, y: int|
                    0 <= x < y < n && x < a ==> (#[trigger] uris0[x])@ != (#[trigger] uris0[y])@,
            decreases n - a,
        {
            if !is_absolute_uri(redirect_uris[a].as_str()) {
                return Err(OAuthError::ValidationError);
            }
            let mut b: usize = a + 1;
            while b < n
                invariant
                    a < b <= n,
                    n == uris0.len(),
                    redirect_uris@ == uris0,
                    *self == *old(self),
                    old(self).wf(),
                    forall|y: int| a < y < b ==> (uris0[a as int])@ != (#[trigger] uris0[y])@,
                decreases n - b,
            {
                if str_eq(redirect_uris[a].as_str(), redirect_uris[b].as_str()) {
                    return Err(OAuthError::ValidationError);
                }
                b = b + 1;
            }
            a = a + 1;
        }
        assert(!spec_register_invalid(uris0));
        if self.next_client_id == u64::MAX {
            return Err(OAuthError::StoreError);
        }
        if n as u64 > u64::MAX - self.next_uri_id {
            return Err(OAuthError::StoreError);
        }
        let ghost pre = *self;
        let client_id_val = self.next_client_id;
        let uri_base = self.next_uri_id;
        let mut source = redirect_uris;
        let mut rows: Vec<OAuthRedirectUri> = Vec::new();
        let mut k: usize = 0;
        assert(source@ =~= uris0.skip(0));
        while k < n
            invariant
                0 <= k <= n,
                n == uris0.len(),
                n as u64 <= u64::MAX - uri_base,
                source@ == uris0.skip(k as int),
                rows@.len() == k,
                *self == pre,
                forall|j: int|
                    0 <= j < k ==> {
                        &&& (#[trigger] rows@[j]).id.0 == uri_base + j
                        &&& rows@[j].client_id.0 == client_id_val
                        &&& rows@[j].uri == uris0[j]
                    },
            decreases n - k,
        {
            assert(source@[0] == uris0[k as int]);
            let uri = source.remove(0);
            assert(source@ =~= uris0.skip(k as int + 1));
            rows.push(
                OAuthRedirectUri {
                    id: OAuthRedirectUriId(uri_base + k as u64),
                    client_id: OAuthClientId(client_id_val),
                    uri,
                },
            );
            k = k + 1;
        }
        let client = OAuthClient {
            id: OAuthClientId(client_id_val),
            name,
            icon_url,
            max_scopes,
            secret_hash,
            redirect_uris: rows,
            created: now,
            created_by,
        };
        assert(spec_client_rows_wf(client)) by {
            assert forall|x: int, y: int|
                0 <= x < y < client.redirect_uris@.len() implies client.redirect_uris@[x].uri@
                != client.redirect_uris@[y].uri@ by {
                assert(client.redirect_uris@[x].uri == uris0[x]);
                assert(client.redirect_uris@[y].uri == uris0[y]);
            }
        }
        self.clients.push(client);
        self.next_client_id = client_id_val + 1;
        self.next_uri_id = uri_base + n as u64;
        proof {
            assert forall|i: int|
                0 <= i < self.authorizations@.len() implies spec_find_client(
                self.clients@,
                (#[trigger] self.authorizations@[i]).client_id,
            ) is Some by {
                lemma_find_client_push(pre.clients@, client, self.authorizations@[i].client_id);
            }
        }
        Ok(OAuthClientId(client_id_val))
    }

    /// Records the outcome of a successful exchange in the grant table:
    /// the scopes are unioned into the existing row for the pair, or a new
    /// row is created with a fresh identifier and `now` as its creation
    /// time. A grant can only be recorded for a stored client.
    pub(crate) fn record_grant(
        &mut self,
        client_id: OAuthClientId,
        user_id: UserId,
        scopes: Scopes,
        now: i64,
    ) -> (r: Result<(), OAuthError>)
        requires
            old(self).wf(),
            spec_find_client(old(self).clients@, client_id) is Some,
        ensures
            final(self).wf(),
            final(self).clients@ == old(self).clients@,
            final(self).next_client_id == old(self).next_client_id,
            final(self).next_uri_id == old(self).next_uri_id,
            match r {
                Ok(()) => match spec_find_authorization(
                    old(self).authorizations@,
                    client_id,
                    user_id,
                ) {
                    Some(i) => {
                        &&& final(self).authorizations@ == old(self).authorizations@.update(
                            i,
                            OAuthClientAuthorization {
                                id: old(self).authorizations@[i].id,
                                client_id,
                                user_id,
                                scopes: Scopes(old(self).authorizations@[i].scopes.0 | scopes.0),
                                created: old(self).authorizations@[i].created,
                            },
                        )
                        &&& final(self).next_authorization_id == old(self).next_authorization_id
                    },
                    None => {
                        &&& final(self).authorizations@ == old(self).authorizations@.push(
                            OAuthClientAuthorization {
                                id: OAuthClientAuthorizationId(old(self).next_authorization_id),
                                client_id,
                                user_id,
                                scopes,
                                created: now,
                            },
                        )
                        &&& final(self).next_authorization_id == old(self).next_authorization_id
                            + 1
                    },
                },
                Err(OAuthError::StoreError) => {
                    &&& spec_find_authorization(
                        old(self).authorizations@,
                        client_id,
                        user_id,
                    ) is None
                    &&& old(self).next_authorization_id == u64::MAX
                    &&& *final(self) == *old(self)
                },
                Err(_) => false,
            },
    {
        let ghost auths = self.authorizations@;
        let n = self.authorizations.len();
        let mut i: usize = 0;
        assert(auths.skip(0) =~= auths);
        proof {
            lemma_find_authorization_in_range(auths, client_id, user_id);
        }
        while i < n
            invariant
                0 <= i <= n,
                n == auths.len(),
                auths == self.authorizations@,
                *self == *old(self),
                old(self).wf(),
                match spec_find_authorization(auths, client_id, user_id) {
                    Some(k) => k >= i && spec_find_authorization(
                        auths.skip(i as int),
                        client_id,
                        user_id,
                    ) == Some(k - i),
                    None => spec_find_authorization(
                        auths.skip(i as int),
                        client_id,
                        user_id,
                    ) is None,
                },
            decreases n - i,
        {
            assert(auths.skip(i as int).drop_first() =~= auths.skip(i as int + 1));
            assert(auths.skip(i as int)[0] == auths[i as int]);
            proof {
                lemma_find_authorization_in_range(auths.skip(i as int + 1), client_id, user_id);
            }
            if self.authorizations[i].client_id.0 == client_id.0
                && self.authorizations[i].user_id.0 == user_id.0 {
                assert(spec_find_authorization(auths, client_id, user_id) == Some(i as int));
                let row = self.authorizations.remove(i);
                let updated = OAuthClientAuthorization {
                    id: row.id,
                    client_id,
                    user_id,
                    scopes: Scopes(row.scopes.0 | scopes.0),
                    created: row.created,
                };
                self.authorizations.insert(i, updated);
                assert(self.authorizations@ =~= auths.update(
                    i as int,
                    OAuthClientAuthorization {
                        id: auths[i as int].id,
                        client_id,
                        user_id,
                        scopes: Scopes(auths[i as int].scopes.0 | scopes.0),
                        created: auths[i as int].created,
                    },
                ));
                return Ok(());
            }
            i = i + 1;
        }
        assert(auths.skip(n as int) =~= Seq::<OAuthClientAuthorization>::empty());
        proof {
            lemma_find_authorization_props(auths, client_id, user_id);
        }
        if self.next_authorization_id == u64::MAX {
            return Err(OAuthError::StoreError);
        }
        let fresh = OAuthClientAuthorization {
            id: OAuthClientAuthorizationId(self.next_authorization_id),
            client_id,
            user_id,
            scopes,
            created: now,
        };
        self.authorizations.push(fresh);
        self.next_authorization_id = self.next_authorization_id + 1;
        Ok(())
    }
}

/// Filtering a sequence of redirect URIs with pairwise distinct values
/// yields one with pairwise distinct values.
pub proof fn lemma_filter_uris_distinct(
    s: Seq<OAuthRedirectUri>,
    pred: spec_fn(OAuthRedirectUri) -> bool,
)
    requires
        forall|i: int, j: int|
            0 <= i < j < s.len() ==> (#[trigger] s[i]).uri@ != (#[trigger] s[j]).uri@,
    ensures
        forall|a: int, b: int|
            0 <= a < b < s.filter(pred).len() ==> (#[trigger] s.filter(pred)[a]).uri@ != (
            #[trigger] s.filter(pred)[b]).uri@,
    decreases s.len(),
{
    reveal(Seq::filter);
    if s.len() > 0 {
        assert forall|i: int, j: int|
            0 <= i < j < s.drop_last().len() implies (#[trigger] s.drop_last()[i]).uri@ != (
        #[trigger] s.drop_last()[j]).uri@ by {
            assert(s.drop_last()[i] == s[i]);
            assert(s.drop_last()[j] == s[j]);
        }
        lemma_filter_uris_distinct(s.drop_last(), pred);
        lemma_filter_is_subset(s.drop_last(), pred);
        let sub = s.drop_last().filter(pred);
        if pred(s.last()) {
            assert forall|a: int, b: int|
                0 <= a < b < s.filter(pred).len() implies (#[trigger] s.filter(pred)[a]).uri@ != (
            #[trigger] s.filter(pred)[b]).uri@ by {
                if b == s.filter(pred).len() - 1 {
                    assert(s.filter(pred)[b] == s.last());
                    assert(s.drop_last().contains(sub[a]));
                    let j = choose|j: int|
                        0 <= j < s.drop_last().len() && s.drop_last()[j] == sub[a];
                    assert(s[j] == sub[a]);
                    assert(s[s.len() - 1] == s.last());
                }
            }
        }
    }
}

/// The redirect URIs of `uris` whose id is not in `ids`, in store order.
pub open spec fn spec_uris_without(uris: Seq<OAuthRedirectUri>, ids: Seq<OAuthRedirectUriId>) -> Seq<
    OAuthRedirectUri,
> {
    uris.filter(|u: OAuthRedirectUri| !ids.contains(u.id))
}

/// Whether one of the redirect URIs of `uris` reads `value`.
pub open spec fn spec_has_uri_value(uris: Seq<OAuthRedirectUri>, value: Seq<char>) -> bool {
    exists|j: int| 0 <= j < uris.len() && (#[trigger] uris[j]).uri@ == value
}

/// The redirect URIs of a client with id `client_id` and rows `existing`
/// after the batch `batch` is applied front to back: a batch row addressed
/// to this client is appended unless a row with the same URI value is
/// already there (re-adding a registered URI is a no-op).
pub open spec fn spec_extended_uris(
    existing: Seq<OAuthRedirectUri>,
    client_id: OAuthClientId,
    batch: Seq<OAuthRedirectUri>,
) -> Seq<OAuthRedirectUri>
    decreases batch.len(),
{
    if batch.len() == 0 {
        existing
    } else {
        let rest = spec_extended_uris(existing, client_id, batch.drop_last());
        let u = batch.last();
        if u.client_id == client_id && !spec_has_uri_value(rest, u.uri@) {
            rest.push(u)
        } else {
            rest
        }
    }
}

/// Whether `id` is one of the ids of `ids`.
fn id_in_list(ids: &[OAuthRedirectUriId], id: OAuthRedirectUriId) -> (r: bool)
    ensures
        r == ids@.contains(id),
{
    let n = ids.len();
    let mut i: usize = 0;
    while i < n
        invariant
            0 <= i <= n,
            n == ids@.len(),
            forall|j: int| 0 <= j < i ==> (#[trigger] ids@[j]) != id,
        decreases n - i,
    {
        if ids[i].0 == id.0 {
            return true;
        }
        i = i + 1;
    }
    false
}

impl OAuthClient {
    /// Deletes the redirect URI rows whose ids are listed, from every
    /// client holding one; ids that match nothing are ignored, so the
    /// operation is idempotent. A flow that already captured a removed URI
    /// by value is not affected.
    pub fn remove_redirect_uris(ids: &[OAuthRedirectUriId], registry: &mut ClientRegistry)
        requires
            old(registry).wf(),
        ensures
            final(registry).wf(),
            final(registry).clients@.len() == old(registry).clients@.len(),
            forall|ci: int|
                0 <= ci < final(registry).clients@.len() ==> {
                    let pre_row = old(registry).clients@[ci];
                    let post_row = #[trigger] final(registry).clients@[ci];
                    &&& post_row.id == pre_row.id
                    &&& post_row.name == pre_row.name
                    &&& post_row.icon_url == pre_row.icon_url
                    &&& post_row.max_scopes == pre_row.max_scopes
                    &&& post_row.secret_hash == pre_row.secret_hash
                    &&& post_row.created == pre_row.created
                    &&& post_row.created_by == pre_row.created_by
                    &&& post_row.redirect_uris@ == spec_uris_without(pre_row.redirect_uris@, ids@)
                },
            final(registry).authorizations@ == old(registry).authorizations@,
            final(registry).next_client_id == old(registry).next_client_id,
            final(registry).next_uri_id == old(registry).next_uri_id,
            final(registry).next_authorization_id == old(registry).next_authorization_id,
    {
        let ghost pre = *old(registry);
        let ghost pu = |u: OAuthRedirectUri| !ids@.contains(u.id);
        let n_clients = registry.clients.len();
        let mut ci: usize = 0;
        while ci < n_clients
            invariant
                0 <= ci <= n_clients,
                n_clients == pre.clients@.len(),
                registry.clients@.len() == n_clients,
                registry.authorizations@ == pre.authorizations@,
                registry.next_client_id == pre.next_client_id,
                registry.next_uri_id == pre.next_uri_id,
                registry.next_authorization_id == pre.next_authorization_id,
                forall|cj: int| ci <= cj < n_clients ==> registry.clients@[cj] == pre.clients@[cj],
                forall|cj: int|
                    0 <= cj < ci ==> {
                        let pre_row = pre.clients@[cj];
                        let post_row = #[trigger] registry.clients@[cj];
                        &&& post_row.id == pre_row.id
                        &&& post_row.name == pre_row.name
                        &&& post_row.icon_url == pre_row.icon_url
                        &&& post_row.max_scopes == pre_row.max_scopes
                        &&& post_row.secret_hash == pre_row.secret_hash
                        &&& post_row.created == pre_row.created
                        &&& post_row.created_by == pre_row.created_by
                        &&& post_row.redirect_uris@ == spec_uris_without(
                            pre_row.redirect_uris@,
                            ids@,
                        )
                    },
            decreases n_clients - ci,
        {
            let mut row = registry.clients.remove(ci);
            let ghost pre_row = pre.clients@[ci as int];
            let mut source: Vec<OAuthRedirectUri> = Vec::new();
            core::mem::swap(&mut row.redirect_uris, &mut source);
            let ghost all = source@;
            let total = source.len();
            let mut k: usize = 0;
            assert(all.take(0) =~= Seq::<OAuthRedirectUri>::empty());
            assert(row.redirect_uris@ =~= spec_uris_without(all.take(0), ids@));
            assert(all.skip(0) =~= all);
            while k < total
                invariant
                    0 <= k <= total,
                    total == all.len(),
                    source@ == all.skip(k as int),
                    row.redirect_uris@ == spec_uris_without(all.take(k as int), ids@),
                    row.id == pre_row.id,
                    row.name == pre_row.name,
                    row.icon_url == pre_row.icon_url,
                    row.max_scopes == pre_row.max_scopes,
                    row.secret_hash == pre_row.secret_hash,
                    row.created == pre_row.created,
                    row.created_by == pre_row.created_by,
                decreases total - k,
            {
                assert(all.take(k as int + 1).drop_last() =~= all.take(k as int));
                assert(all.take(k as int + 1).last() == all[k as int]);
                assert(source@[0] == all[k as int]);
                let u = source.remove(0);
                assert(source@ =~= all.skip(k as int + 1));
                reveal_with_fuel(Seq::filter, 2);
                if !id_in_list(ids, u.id) {
                    row.redirect_uris.push(u);
                }
                assert(row.redirect_uris@ =~= spec_uris_without(all.take(k as int + 1), ids@));
                k = k + 1;
            }
            assert(all.take(total as int) =~= all);
            registry.clients.insert(ci, row);
            ci = ci + 1;
        }
        proof {
            let post = registry.clients@;
            assert forall|i: int, j: int|
                0 <= i < j < post.len() implies (#[trigger] post[i]).id != (
            #[trigger] post[j]).id by {
                assert(pre.clients@[i].id != pre.clients@[j].id);
            }
            assert forall|i: int|
                0 <= i < post.len() implies spec_client_rows_wf(#[trigger] post[i]) by {
                let pre_uris = pre.clients@[i].redirect_uris@;
                lemma_filter_uris_distinct(pre_uris, pu);
                lemma_filter_is_subset(pre_uris, pu);
                assert forall|a: int|
                    0 <= a < post[i].redirect_uris@.len() implies (
                #[trigger] post[i].redirect_uris@[a]).client_id == post[i].id by {
                    assert(pre_uris.contains(post[i].redirect_uris@[a]));
                    let x = choose|x: int|
                        0 <= x < pre_uris.len() && pre_uris[x] == post[i].redirect_uris@[a];
                    assert(pre_uris[x].client_id == pre.clients@[i].id);
                }
            }
            assert forall|i: int, j: int|
                0 <= i < post.len() && 0 <= j < post[i].redirect_uris@.len() implies (
            #[trigger] post[i].redirect_uris@[j]).id.0 < registry.next_uri_id by {
                let pre_uris = pre.clients@[i].redirect_uris@;
                lemma_filter_is_subset(pre_uris, pu);
                assert(pre_uris.contains(post[i].redirect_uris@[j]));
                let x = choose|x: int|
                    0 <= x < pre_uris.len() && pre_uris[x] == post[i].redirect_uris@[j];
                assert(pre_uris[x].id.0 < pre.next_uri_id);
            }
            assert forall|i: int|
                0 <= i < registry.authorizations@.len() implies spec_find_client(
                post,
                (#[trigger] registry.authorizations@[i]).client_id,
            ) is Some by {
                let cid = registry.authorizations@[i].client_id;
                lemma_find_client_props(pre.clients@, cid);
                lemma_find_client_props(post, cid);
                match spec_find_client(pre.clients@, cid) {
                    Some(c) => {
                        let x = choose|x: int|
                            0 <= x < pre.clients@.len() && pre.clients@[x] == c;
                        assert(post[x].id == cid);
                    },
                    None => {},
                }
            }
        }
    }

    /// Adds redirect URI rows, each to the client its `client_id` names,
    /// front to back; a row whose URI value the client already has is
    /// skipped, so re-adding is a no-op. Fails with `ValidationError` if a
    /// row's id sits at the very end of the id space and with `StoreError`
    /// if a row references an absent client; nothing changes on failure.
    pub fn insert_redirect_uris(uris: Vec<OAuthRedirectUri>, registry: &mut ClientRegistry) -> (r:
        Result<(), OAuthError>)
        requires
            old(registry).wf(),
        ensures
            final(registry).wf(),
            match r {
                Err(OAuthError::ValidationError) => {
                    &&& exists|k: int|
                        0 <= k < uris@.len() && (#[trigger] uris@[k]).id.0 == u64::MAX
                    &&& *final(registry) == *old(registry)
                },
                Err(OAuthError::StoreError) => {
                    &&& exists|k: int|
                        0 <= k < uris@.len() && spec_find_client(
                            old(registry).clients@,
                            (#[trigger] uris@[k]).client_id,
                        ) is None
                    &&& *final(registry) == *old(registry)
                },
                Err(_) => false,
                Ok(()) => {
                    &&& forall|k: int|
                        0 <= k < uris@.len() ==> (#[trigger] uris@[k]).id.0 != u64::MAX
                            && spec_find_client(old(registry).clients@, uris@[k].client_id) is Some
                    &&& final(registry).clients@.len() == old(registry).clients@.len()
                    &&& forall|ci: int|
                        0 <= ci < final(registry).clients@.len() ==> {
                            let pre_row = old(registry).clients@[ci];
                            let post_row = #[trigger] final(registry).clients@[ci];
                            &&& post_row.id == pre_row.id
                            &&& post_row.name == pre_row.name
                            &&& post_row.icon_url == pre_row.icon_url
                            &&& post_row.max_scopes == pre_row.max_scopes
                            &&& post_row.secret_hash == pre_row.secret_hash
                            &&& post_row.created == pre_row.created
                            &&& post_row.created_by == pre_row.created_by
                            &&& post_row.redirect_uris@ == spec_extended_uris(
                                pre_row.redirect_uris@,
                                pre_row.id,
                                uris@,
                            )
                        }
                    &&& final(registry).authorizations@ == old(registry).authorizations@
                    &&& final(registry).next_client_id == old(registry).next_client_id
                    &&& final(registry).next_uri_id >= old(registry).next_uri_id
                    &&& final(registry).next_authorization_id == old(
                        registry,
                    ).next_authorization_id
                },
            },
    {
        let ghost batch = uris@;
        let n = uris.len();
        let mut v: usize = 0;
        while v < n
            invariant
                0 <= v <= n,
                n == batch.len(),
                uris@ == batch,
                *registry == *old(registry),
                old(registry).wf(),
                forall|k: int|
                    0 <= k < v ==> (#[trigger] batch[k]).id.0 != u64::MAX && spec_find_client(
                        registry.clients@,
                        batch[k].client_id,
                    ) is Some,
            decreases n - v,
        {
            if uris[v].id.0 == u64::MAX {
                return Err(OAuthError::ValidationError);
            }
            if OAuthClient::get(uris[v].client_id, registry).is_none() {
                return Err(OAuthError::StoreError);
            }
            v = v + 1;
        }
        let ghost pre = *registry;
        let mut source = uris;
        let mut k: usize = 0;
        assert(source@ =~= batch.skip(0));
        assert forall|ci: int|
            0 <= ci < registry.clients@.len() implies (
        #[trigger] registry.clients@[ci]).redirect_uris@ == spec_extended_uris(
            pre.clients@[ci].redirect_uris@,
            pre.clients@[ci].id,
            batch.take(0),
        ) by {
            assert(batch.take(0) =~= Seq::<OAuthRedirectUri>::empty());
        }
        while k < n
            invariant
                0 <= k <= n,
                n == batch.len(),
                source@ == batch.skip(k as int),
                registry.wf(),
                pre.wf(),
                registry.clients@.len() == pre.clients@.len(),
                registry.authorizations@ == pre.authorizations@,
                registry.next_client_id == pre.next_client_id,
                registry.next_uri_id >= pre.next_uri_id,
                registry.next_authorization_id == pre.next_authorization_id,
                forall|x: int|
                    0 <= x < n ==> (#[trigger] batch[x]).id.0 != u64::MAX && spec_find_client(
                        pre.clients@,
                        batch[x].client_id,
                    ) is Some,
                forall|ci: int|
                    0 <= ci < registry.clients@.len() ==> {
                        let pre_row = pre.clients@[ci];
                        let post_row = #[trigger] registry.clients@[ci];
                        &&& post_row.id == pre_row.id
                        &&& post_row.name == pre_row.name
                        &&& post_row.icon_url == pre_row.icon_url
                        &&& post_row.max_scopes == pre_row.max_scopes
                        &&& post_row.secret_hash == pre_row.secret_hash
                        &&& post_row.created == pre_row.created
                        &&& post_row.created_by == pre_row.created_by
                        &&& post_row.redirect_uris@ == spec_extended_uris(
                            pre_row.redirect_uris@,
                            pre_row.id,
                            batch.take(k as int),
                        )
                    },
            decreases n - k,
        {
            assert(source@[0] == batch[k as int]);
            let u = source.remove(0);
            assert(source@ =~= batch.skip(k as int + 1));
            assert(batch.take(k as int + 1).drop_last() =~= batch.take(k as int));
            assert(batch.take(k as int + 1).last() == batch[k as int]);
            let ghost mid = *registry;
            proof {
                lemma_find_client_props(pre.clients@, u.client_id);
                match spec_find_client(pre.clients@, u.client_id) {
                    Some(c) => {
                        let x = choose|x: int|
                            0 <= x < pre.clients@.len() && pre.clients@[x] == c;
                        assert(registry.clients@[x].id == u.client_id);
                        lemma_find_client_props(registry.clients@, u.client_id);
                        match spec_find_client(registry.clients@, u.client_id) {
                            Some(_) => {},
                            None => {
                                assert(registry.clients@[x].id != u.client_id);
                            },
                        }
                    },
                    None => {},
                }
            }
            let ci = match find_client_index(registry, u.client_id) {
                Some(ci) => ci,
                None => unreached(),
            };
            let mut row = registry.clients.remove(ci);
            let already = has_uri_value(&row.redirect_uris, u.uri.as_str());
            if !already {
                if registry.next_uri_id <= u.id.0 {
                    registry.next_uri_id = u.id.0 + 1;
                }
                let ghost before = row.redirect_uris@;
                let ghost pushed = u;
                row.redirect_uris.push(u);
                assert(forall|a: int|
                    0 <= a < before.len() ==> (#[trigger] before[a]).uri@ != pushed.uri@);
            }
            registry.clients.insert(ci, row);
            proof {
                assert(registry.clients@.len() == mid.clients@.len());
                assert forall|cj: int|
                    0 <= cj < registry.clients@.len() implies (
                #[trigger] registry.clients@[cj]).redirect_uris@ == spec_extended_uris(
                    pre.clients@[cj].redirect_uris@,
                    pre.clients@[cj].id,
                    batch.take(k as int + 1),
                ) by {
                    if cj != ci {
                        assert(registry.clients@[cj] == mid.clients@[cj]);
                        assert(mid.clients@[cj].id != mid.clients@[ci as int].id);
                    }
                }
                assert forall|i: int|
                    0 <= i < registry.authorizations@.len() implies spec_find_client(
                    registry.clients@,
                    (#[trigger] registry.authorizations@[i]).client_id,
                ) is Some by {
                    let cid = registry.authorizations@[i].client_id;
                    lemma_find_client_props(mid.clients@, cid);
                    lemma_find_client_props(registry.clients@, cid);
                    match spec_find_client(mid.clients@, cid) {
                        Some(c) => {
                            let x = choose|x: int|
                                0 <= x < mid.clients@.len() && mid.clients@[x] == c;
                            assert(registry.clients@[x].id == cid);
                        },
                        None => {},
                    }
                }
            }
            k = k + 1;
        }
        assert(batch.take(n as int) =~= batch);
        Ok(())
    }
}

/// The index of the client registered under `id`, if any.
fn find_client_index(registry: &ClientRegistry, id: OAuthClientId) -> (r: Option<usize>)
    ensures
        match r {
            Some(i) => 0 <= i < registry.clients@.len() && registry.clients@[i as int].id == id
                && spec_find_client(registry.clients@, id) == Some(registry.clients@[i as int]),
            None => spec_find_client(registry.clients@, id) is None,
        },
{
    let ghost clients = registry.clients@;
    let n = registry.clients.len();
    let mut i: usize = 0;
    assert(clients.skip(0) =~= clients);
    while i < n
        invariant
            0 <= i <= n,
            n == clients.len(),
            clients == registry.clients@,
            spec_find_client(clients, id) == spec_find_client(clients.skip(i as int), id),
        decreases n - i,
    {
        assert(clients.skip(i as int).drop_first() =~= clients.skip(i as int + 1));
        assert(clients.skip(i as int)[0] == clients[i as int]);
        if registry.clients[i].id.0 == id.0 {
            return Some(i);
        }
        i = i + 1;
    }
    assert(clients.skip(n as int) =~= Seq::<OAuthClient>::empty());
    None
}

/// Whether one of `uris` reads `value`.
pub(crate) fn has_uri_value(uris: &Vec<OAuthRedirectUri>, value: &str) -> (r: bool)
    ensures
        r == spec_has_uri_value(uris@, value@),
{
    let n = uris.len();
    let mut i: usize = 0;
    while i < n
        invariant
            0 <= i <= n,
            n == uris@.len(),
            forall|j: int| 0 <= j < i ==> (#[trigger] uris@[j]).uri@ != value@,
        decreases n - i,
    {
        if str_eq(uris[i].uri.as_str(), value) {
            return true;
        }
        i = i + 1;
    }
    false
}

/// Whether a client row may not enter the store as it stands: a redirect
/// URI of another client, two redirect URIs with the same value, or an
/// identifier at the very end of the id space.
pub open spec fn spec_insert_malformed(client: OAuthClient) -> bool {
    ||| client.id.0 == u64::MAX
    ||| exists|x: int|
        0 <= x < client.redirect_uris@.len() && ((#[trigger] client.redirect_uris@[x]).client_id
            != client.id || client.redirect_uris@[x].id.0 == u64::MAX)
    ||| exists|x: int, y: int|
        0 <= x < y < client.redirect_uris@.len() && (#[trigger] client.redirect_uris@[x]).uri@ == (
        #[trigger] client.redirect_uris@[y]).uri@
}

} // verus!
