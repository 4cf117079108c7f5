//! The pool of gRPC channels to Xray nodes: a least-recently-used cache keyed by
//! (domain, port, token), and the resolution of a request's `X-Node-*` headers.

use vstd::prelude::*;

use lru::LruCache;
use tokio::runtime::Handle;
use tonic::transport::Channel;

use crate::channel::{
    open_channel, plain_dns_name, tls_setup_outcome, uri_parse_outcome, ChannelSetupError,
    NodeChannel,
};
use crate::error::AppError;
use crate::text::{decimal, parse_u16, parse_u16_spec, push_decimal};

verus! {

/// Capacity of the channel cache the bridge runs with.
pub const DEFAULT_MAX_ENTRIES: usize = 256;

/// gRPC port used when `X-Node-Port` is absent or not a valid port.
pub const DEFAULT_NODE_PORT: u16 = 443;

/// `lru::LruCache`; its contents are named by [`lru_entries`] and [`lru_capacity`].
#[verifier::external_type_specification]
#[verifier::external_body]
#[verifier::reject_recursive_types(K)]
#[verifier::reject_recursive_types(V)]
#[verifier::reject_recursive_types(S)]
pub struct ExLruCache<K, V, S>(LruCache<K, V, S>);

/// `lru::DefaultHasher`, the hasher an `LruCache` is made with; opaque here.
#[verifier::external_type_specification]
#[verifier::external_body]
pub struct ExDefaultHasher(lru::DefaultHasher);

/// A gRPC channel to one Xray node, with the credentials sent on every call.
#[derive(Clone)]
pub struct XrayClient {
    /// Lazily connecting TLS channel to the node's `https://domain:port` endpoint.
    pub channel: NodeChannel,
    /// Node API token sent as `x-api-token` gRPC metadata on every request.
    pub token: String,
    /// Diagnostic label (from the `X-Node-Name` header, if provided).
    pub name: Option<String>,
}

/// Cache key: (domain, port, token). Different tokens make different clients.
pub type ClientKey = (String, u16, String);

/// A cache key as plain values.
pub type KeyView = (Seq<char>, u16, Seq<char>);

/// What a client is: (its channel, the endpoint URI the channel reaches, token, name).
pub type ClientView = (Channel, Seq<char>, Seq<char>, Option<Seq<char>>);

/// The plain values of a cache key.
pub open spec fn key_view(k: ClientKey) -> KeyView {
    (k.0@, k.1, k.2@)
}

/// The plain values of a client.
pub open spec fn client_view(c: XrayClient) -> ClientView {
    (
        c.channel.handle(),
        c.channel.endpoint_text(),
        c.token@,
        match c.name {
            Some(n) => Some(n@),
            None => None,
        },
    )
}

/// The entries of an LRU cache of clients, most recently used first.
pub uninterp spec fn lru_entries(cache: LruCache<ClientKey, XrayClient>) -> Seq<(KeyView, ClientView)>;

/// The capacity an LRU cache of clients was made with.
pub uninterp spec fn lru_capacity(cache: LruCache<ClientKey, XrayClient>) -> nat;

/// No key occurs twice among `e`.
pub open spec fn distinct_keys(e: Seq<(KeyView, ClientView)>) -> bool {
    forall|i: int, j: int| 0 <= i < j < e.len() ==> #[trigger] e[i].0 != #[trigger] e[j].0
}

/// Every cached client reaches the endpoint of its key's domain and port and carries
/// its key's token.
pub open spec fn clients_match(e: Seq<(KeyView, ClientView)>) -> bool {
    forall|i: int|
        0 <= i < e.len() ==> (#[trigger] e[i]).1.1 == node_uri_text(e[i].0.0, e[i].0.1)
            && e[i].1.2 == e[i].0.2
}

/// The position of key `k` among `e`, if it is there.
pub open spec fn key_position(e: Seq<(KeyView, ClientView)>, k: KeyView) -> Option<int> {
    if exists|i: int| 0 <= i < e.len() && #[trigger] e[i].0 == k {
        Some(choose|i: int| 0 <= i < e.len() && #[trigger] e[i].0 == k)
    } else {
        None
    }
}

/// `e` after a use of its `i`-th entry: that entry moves to the front.
pub open spec fn touched(e: Seq<(KeyView, ClientView)>, i: int) -> Seq<(KeyView, ClientView)> {
    seq![e[i]] + e.remove(i)
}

/// `e` after inserting a new key `k` with client `c` into a cache of capacity `cap`:
/// the new entry goes in front and, if the cache was full, the least recently used
/// entry (the last) is dropped.
pub open spec fn inserted(
    e: Seq<(KeyView, ClientView)>,
    k: KeyView,
    c: ClientView,
    cap: nat,
) -> Seq<(KeyView, ClientView)> {
    if e.len() == cap {
        seq![(k, c)] + e.drop_last()
    } else {
        seq![(k, c)] + e
    }
}

/// What looking up key `k` (with label `name`) in a cache with entries `e` and capacity
/// `cap` may give, `r`, and leave behind, `e2`. A cached client is returned and moves to
/// the front. Otherwise a channel to `https://domain:port` is opened: a URI that does not
/// parse, or a TLS set-up that is refused, gives a 500 with the reason and leaves the cache
/// as it was; else a new client for that endpoint, with the given token and name, is
/// returned and inserted. A domain that is a plain DNS name always gets a client.
pub open spec fn get_or_create_post(
    e: Seq<(KeyView, ClientView)>,
    cap: nat,
    k: KeyView,
    name: Option<Seq<char>>,
    r: Result<XrayClient, AppError>,
    e2: Seq<(KeyView, ClientView)>,
) -> bool {
    &&& plain_dns_name(k.0) ==> r is Ok
    &&& match key_position(e, k) {
        Some(i) => r matches Ok(c) && client_view(c) == e[i].1 && e2 == touched(e, i),
        None => match uri_parse_outcome(node_uri_text(k.0, k.1)) {
            Some(m) => r matches Err(err) && err matches AppError::Internal(msg) && msg@
                == "invalid URI: "@ + m && e2 == e,
            None => match tls_setup_outcome(node_uri_text(k.0, k.1)) {
                Some(m) => r matches Err(err) && err matches AppError::Internal(msg) && msg@
                    == "TLS config error: "@ + m && e2 == e,
                None => r matches Ok(c) && c.channel.endpoint_text() == node_uri_text(k.0, k.1)
                    && c.token@ == k.2 && client_view(c).3 == name
                    && e2 == inserted(e, k, client_view(c), cap),
            },
        },
    }
}

/// Calls `LruCache::new` with capacity `cap` (passed as `NonZeroUsize`): an empty cache.
#[verifier::external_body]
fn lru_new(cap: usize) -> (r: LruCache<ClientKey, XrayClient>)
    requires
        cap > 0,
    ensures
        lru_entries(r) == Seq::<(KeyView, ClientView)>::empty(),
        lru_capacity(r) == cap,
{
    LruCache::new(std::num::NonZeroUsize::new(cap).unwrap())
}

/// Calls `LruCache::get`: if `key` is cached, its entry becomes the most recently used and
/// its client is returned by reference.
#[verifier::external_body]
fn lru_get<'a>(cache: &'a mut LruCache<ClientKey, XrayClient>, key: &ClientKey) -> (r: Option<
    &'a XrayClient,
>)
    requires
        distinct_keys(lru_entries(*old(cache))),
    ensures
        lru_capacity(*final(cache)) == lru_capacity(*old(cache)),
        match key_position(lru_entries(*old(cache)), key_view(*key)) {
            Some(i) => r matches Some(c) && client_view(*c) == lru_entries(*old(cache))[i].1
                && lru_entries(*final(cache)) == touched(lru_entries(*old(cache)), i),
            None => r is None && lru_entries(*final(cache)) == lru_entries(*old(cache)),
        },
{
    cache.get(key)
}

/// Calls `LruCache::contains`, which tells whether `key` is cached without changing the order.
#[verifier::external_body]
fn lru_contains(cache: &LruCache<ClientKey, XrayClient>, key: &ClientKey) -> (r: bool)
    ensures
        r == key_position(lru_entries(*cache), key_view(*key)) is Some,
{
    cache.contains(key)
}

/// Calls `LruCache::put`: an existing entry for `key` is replaced and moved to the front;
/// otherwise the new entry goes in front, evicting the least recently used one when full.
#[verifier::external_body]
fn lru_put(cache: &mut LruCache<ClientKey, XrayClient>, key: ClientKey, client: XrayClient)
    requires
        distinct_keys(lru_entries(*old(cache))),
        lru_entries(*old(cache)).len() <= lru_capacity(*old(cache)),
    ensures
        lru_capacity(*final(cache)) == lru_capacity(*old(cache)),
        match key_position(lru_entries(*old(cache)), key_view(key)) {
            Some(i) => lru_entries(*final(cache)) == seq![(key_view(key), client_view(client))]
                + lru_entries(*old(cache)).remove(i),
            None => lru_entries(*final(cache)) == inserted(
                lru_entries(*old(cache)),
                key_view(key),
                client_view(client),
                lru_capacity(*old(cache)),
            ),
        },
{
    cache.put(key, client);
}

/// Calls `LruCache::len`: the number of entries.
#[verifier::external_body]
fn lru_len(cache: &LruCache<ClientKey, XrayClient>) -> (r: usize)
    ensures
        r == lru_entries(*cache).len(),
{
    cache.len()
}

/// The URI of a node's gRPC endpoint: `https://{domain}:{port}`.
pub open spec fn node_uri_text(domain: Seq<char>, port: u16) -> Seq<char> {
    "https://"@ + domain + ":"@ + decimal(port as nat)
}

/// The URI of a node's gRPC endpoint: `https://{domain}:{port}`.
pub fn node_uri(domain: &str, port: u16) -> (r: String)
    ensures
        r@ == node_uri_text(domain@, port),
{
    let mut text = "https://".to_owned();
    text.append(domain);
    text.append(":");
    push_decimal(&mut text, port as u32);
    text
}

impl XrayClient {
    /// Another handle on the same channel, with the same token and name.
    pub fn duplicate(&self) -> (r: XrayClient)
        ensures
            client_view(r) == client_view(*self),
    {
        let name = match &self.name {
            Some(n) => Some(n.clone()),
            None => None,
        };
        XrayClient { channel: self.channel.duplicate(), token: self.token.clone(), name }
    }
}

/// LRU cache of [`XrayClient`]s keyed by (domain, port, token).
pub struct XrayClientCache {
    inner: LruCache<ClientKey, XrayClient>,
}

impl XrayClientCache {
    /// The cached entries, most recently used first.
    pub closed spec fn entries(&self) -> Seq<(KeyView, ClientView)> {
        lru_entries(self.inner)
    }

    /// The most entries the cache holds.
    pub closed spec fn capacity(&self) -> nat {
        lru_capacity(self.inner)
    }

    /// The cache is well formed: keys are distinct, each client matches its key, and there
    /// are at most `capacity` of them.
    pub open spec fn wf(&self) -> bool {
        &&& distinct_keys(self.entries())
        &&& clients_match(self.entries())
        &&& self.entries().len() <= self.capacity()
        &&& self.capacity() > 0
    }

    /// An empty cache holding at most `max_entries` clients (which must be positive).
    pub fn new(max_entries: usize) -> (r: Self)
        requires
            max_entries > 0,
        ensures
            r.wf(),
            r.entries() == Seq::<(KeyView, ClientView)>::empty(),
            r.capacity() == max_entries,
    {
        XrayClientCache { inner: lru_new(max_entries) }
    }

    /// The number of cached clients.
    pub fn size(&self) -> (r: usize)
        ensures
            r == self.entries().len(),
    {
        lru_len(&self.inner)
    }

    /// Whether a client for (domain, port, token) is cached; the order is not changed.
    pub fn contains(&self, domain: &str, port: u16, token: &str) -> (r: bool)
        ensures
            r == key_position(self.entries(), (domain@, port, token@)) is Some,
    {
        let key = (domain.to_owned(), port, token.to_owned());
        lru_contains(&self.inner, &key)
    }

    /// Returns the cached client for (domain, port, token), making it the most recently
    /// used, or creates one with a lazily connecting TLS channel to `https://domain:port`
    /// and caches it (evicting the least recently used client when the cache is full).
    /// A new channel's worker is spawned on `runtime`.
    pub fn get_or_create(
        &mut self,
        domain: &str,
        port: u16,
        token: &str,
        name: Option<&str>,
        runtime: &Handle,
    ) -> (r: Result<XrayClient, AppError>)
        requires
            old(self).wf(),
        ensures
            final(self).wf(),
            final(self).capacity() == old(self).capacity(),
            get_or_create_post(
                old(self).entries(),
                old(self).capacity(),
                (domain@, port, token@),
                match name {
                    Some(n) => Some(n@),
                    None => None,
                },
                r,
                final(self).entries(),
            ),
    {
        let key = (domain.to_owned(), port, token.to_owned());
        let ghost e = self.entries();
        match lru_get(&mut self.inner, &key) {
            Some(client) => {
                proof {
                    let i = key_position(e, key_view(key))->0;
                    lemma_touched_keeps_wf(e, i);
                }
                return Ok(client.duplicate());
            },
            None => {},
        }
        let text = node_uri(domain, port);
        proof {
            if plain_dns_name(domain@) {
                assert(text@ == node_uri_text(domain@, port) && plain_dns_name(domain@));
            }
        }
        let channel = match open_channel(text.as_str(), runtime) {
            Ok(c) => c,
            Err(ChannelSetupError::InvalidUri(m)) => {
                let mut msg = "invalid URI: ".to_owned();
                msg.append(m.as_str());
                return Err(AppError::Internal(msg));
            },
            Err(ChannelSetupError::Tls(m)) => {
                let mut msg = "TLS config error: ".to_owned();
                msg.append(m.as_str());
                return Err(AppError::Internal(msg));
            },
        };
        let name = match name {
            Some(n) => Some(n.to_owned()),
            None => None,
        };
        let client = XrayClient { channel, token: token.to_owned(), name };
        let cached = client.duplicate();
        proof {
            lemma_inserted_keeps_wf(e, key_view(key), client_view(cached), self.capacity());
        }
        lru_put(&mut self.inner, key, cached);
        Ok(client)
    }
}

/// Axum-side result of resolving a request's node: the client to call it with.
pub struct NodeContext(pub XrayClient);

/// Message for a request without `X-Node-Domain`.
pub open spec fn missing_domain_message() -> Seq<char> {
    "缺少 X-Node-Domain header"@
}

/// Message for a request without `X-Node-Token`.
pub open spec fn missing_token_message() -> Seq<char> {
    "缺少 X-Node-Token header"@
}

/// The gRPC port from the raw `X-Node-Port` value: its `u16` value, else 443.
pub open spec fn node_port(raw: Option<Seq<char>>) -> u16 {
    match raw {
        Some(s) => match parse_u16_spec(s) {
            Some(p) => p,
            None => DEFAULT_NODE_PORT,
        },
        None => DEFAULT_NODE_PORT,
    }
}

/// The plain value of an optional header.
pub open spec fn header_text(h: Option<&str>) -> Option<Seq<char>> {
    match h {
        Some(s) => Some(s@),
        None => None,
    }
}

impl NodeContext {
    /// Resolves the node a request targets from its `X-Node-Domain`, `X-Node-Token`,
    /// `X-Node-Port` and `X-Node-Name` header values (`None` when absent or not visible
    /// ASCII): domain and token must be present and non-empty; the port defaults to 443;
    /// the client comes from the cache as [`XrayClientCache::get_or_create`] gives it, a new
    /// channel's worker being spawned on `runtime`.
    pub fn resolve(
        cache: &mut XrayClientCache,
        domain: Option<&str>,
        token: Option<&str>,
        port: Option<&str>,
        name: Option<&str>,
        runtime: &Handle,
    ) -> (r: Result<NodeContext, AppError>)
        requires
            old(cache).wf(),
        ensures
            final(cache).wf(),
            final(cache).capacity() == old(cache).capacity(),
            match (header_text(domain), header_text(token)) {
                (Some(d), Some(t)) if d.len() > 0 && t.len() > 0 => get_or_create_post(
                    old(cache).entries(),
                    old(cache).capacity(),
                    (d, node_port(header_text(port)), t),
                    header_text(name),
                    match r {
                        Ok(ctx) => Ok(ctx.0),
                        Err(e) => Err(e),
                    },
                    final(cache).entries(),
                ),
                (Some(d), _) if d.len() > 0 => r matches Err(e) && e matches AppError::InvalidArgument(m)
                    && m@ == missing_token_message() && final(cache).entries() == old(cache).entries(),
                _ => r matches Err(e) && e matches AppError::InvalidArgument(m) && m@
                    == missing_domain_message() && final(cache).entries() == old(cache).entries(),
            },
    {
        let domain = match domain {
            Some(d) => d,
            None => return Err(AppError::InvalidArgument("缺少 X-Node-Domain header".to_owned())),
        };
        if domain.is_empty() {
            return Err(AppError::InvalidArgument("缺少 X-Node-Domain header".to_owned()));
        }
        let token = match token {
            Some(t) => t,
            None => return Err(AppError::InvalidArgument("缺少 X-Node-Token header".to_owned())),
        };
        if token.is_empty() {
            return Err(AppError::InvalidArgument("缺少 X-Node-Token header".to_owned()));
        }
        let port = match port {
            Some(p) => match parse_u16(p) {
                Some(v) => v,
                None => DEFAULT_NODE_PORT,
            },
            None => DEFAULT_NODE_PORT,
        };
        match cache.get_or_create(domain, port, token, name, runtime) {
            Ok(client) => Ok(NodeContext(client)),
            Err(e) => Err(e),
        }
    }
}

proof fn lemma_touched_keeps_wf(e: Seq<(KeyView, ClientView)>, i: int)
    requires
        distinct_keys(e),
        0 <= i < e.len(),
    ensures
        distinct_keys(touched(e, i)),
        clients_match(e) ==> clients_match(touched(e, i)),
        touched(e, i).len() == e.len(),
{
    let t = touched(e, i);
    assert forall|a: int| 0 <= a < t.len() implies #[trigger] t[a] == e[if a == 0 { i } else if a - 1 < i { a - 1 } else { a }] by {
    }
    assert forall|a: int, b: int| 0 <= a < b < t.len() implies #[trigger] t[a].0 != #[trigger] t[b].0 by {
        let ia = if a == 0 { i } else if a - 1 < i { a - 1 } else { a };
        let ib = if b - 1 < i { b - 1 } else { b };
        assert(t[a] == e[ia]);
        assert(t[b] == e[ib]);
    }
}

proof fn lemma_inserted_keeps_wf(e: Seq<(KeyView, ClientView)>, k: KeyView, c: ClientView, cap: nat)
    requires
        distinct_keys(e),
        e.len() <= cap,
        cap > 0,
        key_position(e, k) is None,
    ensures
        distinct_keys(inserted(e, k, c, cap)),
        clients_match(e) && c.1 == node_uri_text(k.0, k.1) && c.2 == k.2 ==> clients_match(
            inserted(e, k, c, cap),
        ),
        inserted(e, k, c, cap).len() <= cap,
{
    let t = inserted(e, k, c, cap);
    assert forall|a: int| 0 < a < t.len() implies #[trigger] t[a] == e[a - 1] by {
    }
    assert forall|a: int, b: int| 0 <= a < b < t.len() implies #[trigger] t[a].0 != #[trigger] t[b].0 by {
        assert(t[b] == e[b - 1]);
        if a == 0 {
            assert(e[b - 1].0 != k);
        } else {
            assert(t[a] == e[a - 1]);
        }
    }
}

/// Whatever the cache serves, cached or new, reaches the node that was asked for
/// (`https://domain:port`) and carries the token that was asked for.
pub proof fn served_client_matches_request(
    e: Seq<(KeyView, ClientView)>,
    cap: nat,
    k: KeyView,
    name: Option<Seq<char>>,
    r: Result<XrayClient, AppError>,
    e2: Seq<(KeyView, ClientView)>,
)
    requires
        clients_match(e),
        get_or_create_post(e, cap, k, name, r, e2),
    ensures
        r matches Ok(c) ==> c.channel.endpoint_text() == node_uri_text(k.0, k.1) && c.token@
            == k.2,
{
    if let Some(i) = key_position(e, k) {
        assert(e[i].0 == k);
        assert(e[i].1.1 == node_uri_text(e[i].0.0, e[i].0.1));
    }
}

/// A lookup of a cached key hands back that very client (the same channel handle, endpoint,
/// token and name), opens no channel, and keeps the same number of cached clients.
pub proof fn hit_returns_cached_client(
    e: Seq<(KeyView, ClientView)>,
    cap: nat,
    k: KeyView,
    name: Option<Seq<char>>,
    r: Result<XrayClient, AppError>,
    e2: Seq<(KeyView, ClientView)>,
)
    requires
        distinct_keys(e),
        key_position(e, k) is Some,
        get_or_create_post(e, cap, k, name, r, e2),
    ensures
        r matches Ok(c) && c.channel.handle() == e[key_position(e, k)->0].1.0 && client_view(c)
            == e[key_position(e, k)->0].1,
        e2.len() == e.len(),
        e2[0] == e[key_position(e, k)->0],
{
    let i = key_position(e, k)->0;
    lemma_touched_keeps_wf(e, i);
}

/// Whether a client can be created depends on the node's domain and port alone: two
/// lookups of uncached keys for the same domain and port, whatever their tokens, names and
/// caches, either both succeed or both fail with the same error.
pub proof fn creation_depends_on_node_only(
    e: Seq<(KeyView, ClientView)>,
    cap: nat,
    k: KeyView,
    name: Option<Seq<char>>,
    r: Result<XrayClient, AppError>,
    e2: Seq<(KeyView, ClientView)>,
    f: Seq<(KeyView, ClientView)>,
    cap_f: nat,
    l: KeyView,
    name_l: Option<Seq<char>>,
    s: Result<XrayClient, AppError>,
    f2: Seq<(KeyView, ClientView)>,
)
    requires
        k.0 == l.0,
        k.1 == l.1,
        key_position(e, k) is None,
        key_position(f, l) is None,
        get_or_create_post(e, cap, k, name, r, e2),
        get_or_create_post(f, cap_f, l, name_l, s, f2),
    ensures
        match (r, s) {
            (Ok(_), Ok(_)) => true,
            (Err(AppError::Internal(a)), Err(AppError::Internal(b))) => a@ == b@,
            _ => false,
        },
{
}

/// Reusing a cached client moves it to the front and keeps the same clients cached,
/// the same number of them.
pub proof fn reuse_keeps_cached_clients(e: Seq<(KeyView, ClientView)>, i: int)
    requires
        distinct_keys(e),
        0 <= i < e.len(),
    ensures
        touched(e, i).len() == e.len(),
        touched(e, i)[0] == e[i],
        distinct_keys(touched(e, i)),
        forall|x: (KeyView, ClientView)| touched(e, i).contains(x) <==> e.contains(x),
{
    lemma_touched_keeps_wf(e, i);
    let t = touched(e, i);
    assert forall|x: (KeyView, ClientView)| t.contains(x) <==> e.contains(x) by {
        if t.contains(x) {
            let a = choose|a: int| 0 <= a < t.len() && t[a] == x;
            let ia = if a == 0 { i } else if a - 1 < i { a - 1 } else { a };
            assert(e[ia] == x);
        }
        if e.contains(x) {
            let b = choose|b: int| 0 <= b < e.len() && e[b] == x;
            if b == i {
                assert(t[0] == x);
            } else if b < i {
                assert(t[b + 1] == x);
            } else {
                assert(t[b] == x);
            }
        }
    }
}

/// A newly created client is put at the front, so the next lookup of its key finds it.
pub proof fn created_client_is_found_next(
    e: Seq<(KeyView, ClientView)>,
    k: KeyView,
    c: ClientView,
    cap: nat,
)
    requires
        distinct_keys(e),
        e.len() <= cap,
        cap > 0,
        key_position(e, k) is None,
    ensures
        inserted(e, k, c, cap)[0] == (k, c),
        key_position(inserted(e, k, c, cap), k) == Some(0int),
{
    let t = inserted(e, k, c, cap);
    lemma_inserted_keeps_wf(e, k, c, cap);
    assert(t[0].0 == k);
    let p = choose|i: int| 0 <= i < t.len() && #[trigger] t[i].0 == k;
    if p != 0 {
        assert(t[0].0 != t[p].0);
    }
}

/// Creating a client in a cache with room keeps every cached client; in a full cache it
/// evicts exactly the least recently used one (the last) and keeps all others.
pub proof fn creation_evicts_only_least_recent(
    e: Seq<(KeyView, ClientView)>,
    k: KeyView,
    c: ClientView,
    cap: nat,
)
    requires
        distinct_keys(e),
        e.len() <= cap,
        cap > 0,
        key_position(e, k) is None,
    ensures
        e.len() < cap ==> inserted(e, k, c, cap).len() == e.len() + 1,
        e.len() == cap ==> inserted(e, k, c, cap).len() == cap,
        forall|j: int|
            0 <= j < e.len() && (e.len() < cap || j < e.len() - 1) ==> inserted(
                e,
                k,
                c,
                cap,
            ).contains(#[trigger] e[j]),
        e.len() == cap ==> key_position(inserted(e, k, c, cap), e.last().0) is None,
{
    let t = inserted(e, k, c, cap);
    assert forall|j: int| 0 <= j < e.len() && (e.len() < cap || j < e.len() - 1) implies t.contains(
        #[trigger] e[j],
    ) by {
        assert(t[j + 1] == e[j]);
    }
    if e.len() == cap {
        let last = e.last().0;
        assert(last != k);
        assert forall|a: int| 0 <= a < t.len() implies #[trigger] t[a].0 != last by {
            if a > 0 {
                assert(t[a] == e[a - 1]);
                assert(e[a - 1].0 != e[e.len() - 1].0);
            }
        }
    }
}

} // verus!
