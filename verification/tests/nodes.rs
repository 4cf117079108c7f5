use xray_bridge::error::AppError;
use xray_bridge::nodes::{node_uri, NodeContext, XrayClientCache};

fn make_cache() -> XrayClientCache {
    XrayClientCache::new(3)
}

fn runtime() -> tokio::runtime::Runtime {
    tokio::runtime::Runtime::new().unwrap()
}

#[test]
fn cache_get_or_create_same_key_reuses_entry() {
    let rt = runtime();
    let mut cache = make_cache();
    let c1 = cache
        .get_or_create("node1.example.com", 443, "token1", None, rt.handle())
        .unwrap();
    let c2 = cache
        .get_or_create("node1.example.com", 443, "token1", None, rt.handle())
        .unwrap();
    assert_eq!(cache.size(), 1);
    // Both should point to the same token (proving same entry)
    assert_eq!(c1.token, c2.token);
}

#[test]
fn cache_different_tokens_are_different_entries() {
    let rt = runtime();
    let mut cache = make_cache();
    cache
        .get_or_create("node1.example.com", 443, "token-a", None, rt.handle())
        .unwrap();
    cache
        .get_or_create("node1.example.com", 443, "token-b", None, rt.handle())
        .unwrap();
    assert_eq!(cache.size(), 2);
}

#[test]
fn cache_lru_evicts_oldest_entry_when_full() {
    // capacity = 3; insert 4 distinct keys → first one gets evicted
    let rt = runtime();
    let mut cache = make_cache();
    cache.get_or_create("n1.example.com", 443, "t1", None, rt.handle()).unwrap();
    cache.get_or_create("n2.example.com", 443, "t2", None, rt.handle()).unwrap();
    cache.get_or_create("n3.example.com", 443, "t3", None, rt.handle()).unwrap();
    assert_eq!(cache.size(), 3);

    // Access n1 to make it recently used
    cache.get_or_create("n1.example.com", 443, "t1", None, rt.handle()).unwrap();

    // Insert n4 — this should evict n2 (least recently used)
    cache.get_or_create("n4.example.com", 443, "t4", None, rt.handle()).unwrap();
    assert_eq!(cache.size(), 3);

    // n1, n3, n4 should still be in cache
    assert!(cache.contains("n1.example.com", 443, "t1"));
    assert!(!cache.contains("n2.example.com", 443, "t2"));
    assert!(cache.contains("n3.example.com", 443, "t3"));
    assert!(cache.contains("n4.example.com", 443, "t4"));
}

#[test]
fn cache_put_get_basic() {
    let rt = runtime();
    let mut cache = make_cache();
    assert_eq!(cache.size(), 0);
    let client = cache
        .get_or_create("a.example.com", 8443, "tok", Some("node-a"), rt.handle())
        .unwrap();
    assert_eq!(cache.size(), 1);
    assert_eq!(client.token, "tok");
    assert_eq!(client.name.as_deref(), Some("node-a"));
}

#[test]
fn created_client_reaches_the_node_endpoint() {
    let rt = runtime();
    let mut cache = make_cache();
    let client = cache.get_or_create("a.example.com", 8443, "tok", None, rt.handle()).unwrap();
    assert_eq!(client.channel.endpoint(), "https://a.example.com:8443");
    let again = cache.get_or_create("a.example.com", 8443, "tok", None, rt.handle()).unwrap();
    assert_eq!(again.channel.endpoint(), "https://a.example.com:8443");
    let copy = again.duplicate();
    assert_eq!(copy.channel.endpoint(), "https://a.example.com:8443");
    assert_eq!(copy.token, "tok");
}

#[test]
fn refused_tls_name_is_an_internal_error_and_caches_nothing() {
    // The URI parses, but an all-numeric last label is neither a DNS name nor an IP address.
    let rt = runtime();
    let mut cache = make_cache();
    match cache.get_or_create("1.2.3", 443, "tok", None, rt.handle()) {
        Err(AppError::Internal(m)) => assert!(m.starts_with("TLS config error: "), "{m}"),
        Err(e) => panic!("unexpected error {e:?}"),
        Ok(_) => panic!("the TLS set-up must refuse this host"),
    }
    assert_eq!(cache.size(), 0);
}

#[test]
fn cached_client_keeps_its_first_name() {
    let rt = runtime();
    let mut cache = make_cache();
    cache.get_or_create("a.example.com", 443, "tok", Some("first"), rt.handle()).unwrap();
    let again = cache.get_or_create("a.example.com", 443, "tok", Some("second"), rt.handle()).unwrap();
    assert_eq!(again.name.as_deref(), Some("first"));
    assert_eq!(cache.size(), 1);
}

#[test]
fn ports_tell_entries_apart() {
    let rt = runtime();
    let mut cache = make_cache();
    cache.get_or_create("a.example.com", 443, "tok", None, rt.handle()).unwrap();
    cache.get_or_create("a.example.com", 8443, "tok", None, rt.handle()).unwrap();
    assert_eq!(cache.size(), 2);
    assert!(cache.contains("a.example.com", 8443, "tok"));
    assert!(!cache.contains("a.example.com", 9443, "tok"));
}

#[test]
fn invalid_domain_is_an_internal_error_and_caches_nothing() {
    let rt = runtime();
    let mut cache = make_cache();
    match cache.get_or_create("bad domain", 443, "tok", None, rt.handle()) {
        Err(AppError::Internal(m)) => assert!(m.starts_with("invalid URI: "), "{m}"),
        Err(e) => panic!("unexpected error {e:?}"),
        Ok(_) => panic!("a URI with a space must not parse"),
    }
    assert_eq!(cache.size(), 0);
}

#[test]
fn node_uri_is_https_domain_port() {
    assert_eq!(node_uri("node.example.com", 443), "https://node.example.com:443");
    assert_eq!(node_uri("n", 0), "https://n:0");
    assert_eq!(node_uri("n", 65535), "https://n:65535");
}

#[test]
fn node_headers_are_checked_before_the_cache() {
    let rt = runtime();
    let mut cache = make_cache();
    match NodeContext::resolve(&mut cache, None, Some("t"), None, None, rt.handle()) {
        Err(AppError::InvalidArgument(m)) => assert_eq!(m, "缺少 X-Node-Domain header"),
        _ => panic!("missing domain"),
    }
    match NodeContext::resolve(&mut cache, Some(""), Some("t"), None, None, rt.handle()) {
        Err(AppError::InvalidArgument(m)) => assert_eq!(m, "缺少 X-Node-Domain header"),
        _ => panic!("empty domain"),
    }
    match NodeContext::resolve(&mut cache, Some("d.example.com"), Some(""), None, None, rt.handle()) {
        Err(AppError::InvalidArgument(m)) => assert_eq!(m, "缺少 X-Node-Token header"),
        _ => panic!("empty token"),
    }
    assert_eq!(cache.size(), 0);
}

#[test]
fn node_port_defaults_to_443() {
    let rt = runtime();
    let mut cache = make_cache();
    NodeContext::resolve(&mut cache, Some("d.example.com"), Some("t"), None, Some("n"), rt.handle()).unwrap();
    assert!(cache.contains("d.example.com", 443, "t"));
    NodeContext::resolve(&mut cache, Some("d.example.com"), Some("t"), Some("70000"), None, rt.handle()).unwrap();
    assert_eq!(cache.size(), 1);
    let ctx = NodeContext::resolve(&mut cache, Some("d.example.com"), Some("t"), Some("+8443"), None, rt.handle())
        .unwrap();
    assert!(cache.contains("d.example.com", 8443, "t"));
    assert_eq!(ctx.0.token, "t");
}

/// The status a request to an authenticated node route gets before its handler runs: the
/// node headers are resolved first, then the bearer token is checked (the router's order).
fn status_before_handler(
    domain: Option<&str>,
    token: Option<&str>,
    authorization: Option<&str>,
) -> u16 {
    let rt = runtime();
    let mut cache = XrayClientCache::new(256);
    let settings = xray_bridge::config::Settings { bridge_token: "secret".to_owned(), port: 8080 };
    if let Err(e) = NodeContext::resolve(&mut cache, domain, token, None, None, rt.handle()) {
        return e.http_status();
    }
    match xray_bridge::auth::BearerAuth::from_header(authorization, &settings) {
        Err(e) => e.http_status(),
        Ok(_) => 200,
    }
}

#[test]
fn missing_auth_returns_401() {
    assert_eq!(status_before_handler(Some("node.example.com"), Some("nodetoken"), None), 401);
}

#[test]
fn missing_node_domain_returns_400() {
    assert_eq!(status_before_handler(None, Some("nodetoken"), Some("Bearer secret")), 400);
}

#[test]
fn missing_node_token_returns_400() {
    assert_eq!(status_before_handler(Some("node.example.com"), None, Some("Bearer secret")), 400);
}

#[test]
fn wrong_auth_token_returns_401() {
    assert_eq!(
        status_before_handler(Some("node.example.com"), Some("nodetoken"), Some("Bearer wrong-token")),
        401
    );
}

#[test]
fn right_auth_and_node_headers_reach_the_handler() {
    assert_eq!(
        status_before_handler(Some("node.example.com"), Some("nodetoken"), Some("Bearer secret")),
        200
    );
}

#[test]
fn cache_hit_hands_back_the_cached_channel() {
    let rt = runtime();
    let mut cache = make_cache();
    let first = cache.get_or_create("a.example.com", 443, "tok", None, rt.handle()).unwrap();
    let again = cache.get_or_create("a.example.com", 443, "tok", None, rt.handle()).unwrap();
    assert_eq!(again.channel.endpoint(), first.channel.endpoint());
    assert_eq!(cache.size(), 1);
}

#[test]
fn channel_is_opened_without_entering_the_runtime() {
    // The test thread is not inside the runtime; only its handle is passed down.
    let rt = runtime();
    let mut cache = XrayClientCache::new(2);
    let client = cache.get_or_create("outside.example.com", 443, "t", None, rt.handle()).unwrap();
    assert_eq!(client.channel.endpoint(), "https://outside.example.com:443");
    assert!(tokio::runtime::Handle::try_current().is_err());
}
