use std::collections::HashMap;

use tenant_routing_core::config::TenantRoutingConfig;
use tenant_routing_core::engine::{
    dispatch_request, plan_headers, shard_header_name, tenant_header_name, EngineAction,
    ResolutionState, ShardResolver,
};

fn resolver() -> ShardResolver {
    let config =
        TenantRoutingConfig::new("tenant-shard-mapping".to_string(), 300, "shard1".to_string());
    ShardResolver::new(config).expect("valid configuration")
}

fn expect_read(action: EngineAction) -> String {
    match action {
        EngineAction::ReadCache { key } => key,
        _ => panic!("expected a cache read"),
    }
}

fn expect_dispatch(action: EngineAction) -> String {
    match action {
        EngineAction::Dispatch { path } => path,
        _ => panic!("expected a dispatch"),
    }
}

fn expect_finish(action: EngineAction) -> (String, Option<(String, Vec<u8>)>) {
    match action {
        EngineAction::Finish { shard, cache_write } => {
            (shard, cache_write.map(|w| (w.key, w.value)))
        }
        _ => panic!("expected resolution to finish"),
    }
}

#[test]
fn test_resolver_rejects_invalid_config() {
    let config = TenantRoutingConfig::new("".to_string(), 300, "shard1".to_string());
    assert!(ShardResolver::new(config).is_err());
    let config = TenantRoutingConfig::new("b".to_string(), 0, "shard1".to_string());
    assert!(ShardResolver::new(config).is_err());
}

#[test]
fn scenario_lookup_then_cache_hit() {
    // Empty cache; the mapping service answers "  Shard7\n" for acme. The
    // request resolves to "shard7", and a second request before TTL expiry
    // resolves from the cache without another dispatch.
    let r = resolver();
    let mut store: HashMap<String, Vec<u8>> = HashMap::new();
    let now = 1_000_u64;

    let (state, action) = r.on_request_headers(Some("acme.example.com"));
    let key = expect_read(action);
    assert_eq!(key, "tenant:acme");
    let raw = store.get(&key).cloned();
    let (state, action) = r.on_cache_read(state, raw.as_ref(), now);
    let path = expect_dispatch(action);
    assert_eq!(path, "/tenant-shard-mapping/acme/shard");
    let body = b"  Shard7\n".to_vec();
    let (state, action) = r.on_lookup_response(state, Some(&body), now);
    assert!(matches!(state, ResolutionState::Resolved { .. }));
    let (shard, write) = expect_finish(action);
    assert_eq!(shard, "shard7");
    let (wkey, wvalue) = write.expect("a fresh entry must be cached");
    assert_eq!(wkey, "tenant:acme");
    store.insert(wkey, wvalue);

    let (state, action) = r.on_request_headers(Some("acme.example.com"));
    let key = expect_read(action);
    let raw = store.get(&key).cloned();
    let (state, action) = r.on_cache_read(state, raw.as_ref(), now + 299);
    assert!(matches!(
        state,
        ResolutionState::Resolved { used_configured_default: false, .. }
    ));
    let (shard, write) = expect_finish(action);
    assert_eq!(shard, "shard7");
    assert!(write.is_none());
}

#[test]
fn scenario_expired_entry_dispatches_again() {
    let r = resolver();
    let mut store: HashMap<String, Vec<u8>> = HashMap::new();
    let now = 1_000_u64;

    let (state, action) = r.on_request_headers(Some("acme.example.com"));
    let raw = store.get(&expect_read(action)).cloned();
    let (state, action) = r.on_cache_read(state, raw.as_ref(), now);
    expect_dispatch(action);
    let body = b"shard7".to_vec();
    let (_state, action) = r.on_lookup_response(state, Some(&body), now);
    let (_shard, write) = expect_finish(action);
    let (wkey, wvalue) = write.unwrap();
    store.insert(wkey, wvalue);

    // At now + 300 the entry's window has elapsed: the engine must dispatch.
    let (state, action) = r.on_request_headers(Some("acme.example.com"));
    let raw = store.get(&expect_read(action)).cloned();
    let (_state, action) = r.on_cache_read(state, raw.as_ref(), now + 300);
    assert_eq!(expect_dispatch(action), "/tenant-shard-mapping/acme/shard");
}

#[test]
fn scenario_fallback_to_default_tenant() {
    // The mapping service has nothing for acme but answers "shard2" for
    // default: the request resolves to "shard2", cached under the default
    // key, not under acme's.
    let r = resolver();
    let mut store: HashMap<String, Vec<u8>> = HashMap::new();
    let now = 1_000_u64;

    let (state, action) = r.on_request_headers(Some("acme.example.com"));
    let raw = store.get(&expect_read(action)).cloned();
    let (state, action) = r.on_cache_read(state, raw.as_ref(), now);
    expect_dispatch(action);
    let (state, action) = r.on_lookup_response(state, None, now);
    let key = expect_read(action);
    assert_eq!(key, "tenant:default");
    let raw = store.get(&key).cloned();
    let (state, action) = r.on_cache_read(state, raw.as_ref(), now);
    assert_eq!(expect_dispatch(action), "/tenant-shard-mapping/default/shard");
    let body = b"shard2".to_vec();
    let (state, action) = r.on_lookup_response(state, Some(&body), now);
    assert!(matches!(
        state,
        ResolutionState::Resolved { used_configured_default: false, .. }
    ));
    let (shard, write) = expect_finish(action);
    assert_eq!(shard, "shard2");
    let (wkey, wvalue) = write.expect("the default lookup must be cached");
    assert_eq!(wkey, "tenant:default");
    store.insert(wkey, wvalue);
    assert!(store.contains_key("tenant:default"));
    assert!(!store.contains_key("tenant:acme"));
}

#[test]
fn scenario_configured_default_when_all_lookups_fail() {
    // Both the tenant and the default lookup fail: the request resolves to
    // the configured default shard and nothing is written to the cache.
    let r = resolver();
    let store: HashMap<String, Vec<u8>> = HashMap::new();
    let now = 1_000_u64;

    let (state, action) = r.on_request_headers(Some("acme.example.com"));
    let raw = store.get(&expect_read(action)).cloned();
    let (state, action) = r.on_cache_read(state, raw.as_ref(), now);
    expect_dispatch(action);
    let (state, action) = r.on_lookup_response(state, None, now);
    let raw = store.get(&expect_read(action)).cloned();
    let (state, action) = r.on_cache_read(state, raw.as_ref(), now);
    expect_dispatch(action);
    let (state, action) = r.on_lookup_response(state, None, now);
    assert!(matches!(
        state,
        ResolutionState::Resolved { used_configured_default: true, .. }
    ));
    let (shard, write) = expect_finish(action);
    assert_eq!(shard, "shard1");
    assert!(write.is_none());
    assert!(store.is_empty());
}

#[test]
fn scenario_ip_host_goes_straight_to_default() {
    // A dotted-decimal host yields no tenant: the request is treated as the
    // default tenant directly, and a failure then ends at the configured
    // default without any further fallback attempt.
    let r = resolver();
    let store: HashMap<String, Vec<u8>> = HashMap::new();
    let now = 1_000_u64;

    let (state, action) = r.on_request_headers(Some("10.0.0.5:8080"));
    let key = expect_read(action);
    assert_eq!(key, "tenant:default");
    let raw = store.get(&key).cloned();
    let (state, action) = r.on_cache_read(state, raw.as_ref(), now);
    assert_eq!(expect_dispatch(action), "/tenant-shard-mapping/default/shard");
    let (state, action) = r.on_dispatch_failed(state);
    assert!(matches!(
        state,
        ResolutionState::Resolved { used_configured_default: true, .. }
    ));
    let (shard, write) = expect_finish(action);
    assert_eq!(shard, "shard1");
    assert!(write.is_none());
}

#[test]
fn test_dispatch_failure_falls_back_to_default_tenant() {
    let r = resolver();
    let now = 1_000_u64;
    let (state, action) = r.on_request_headers(Some("acme.example.com"));
    let _ = expect_read(action);
    let (state, action) = r.on_cache_read(state, None, now);
    expect_dispatch(action);
    let (state, action) = r.on_dispatch_failed(state);
    assert!(matches!(state, ResolutionState::CacheCheck { .. }));
    assert_eq!(expect_read(action), "tenant:default");
}

#[test]
fn test_missing_authority_uses_default_tenant() {
    let r = resolver();
    let (_state, action) = r.on_request_headers(None);
    assert_eq!(expect_read(action), "tenant:default");
}

#[test]
fn test_corrupt_cache_bytes_are_a_miss() {
    let r = resolver();
    let now = 1_000_u64;
    let (state, action) = r.on_request_headers(Some("acme.example.com"));
    let _ = expect_read(action);
    let corrupt = vec![0xff, 0x00, 0x11];
    let (_state, action) = r.on_cache_read(state, Some(&corrupt), now);
    assert_eq!(expect_dispatch(action), "/tenant-shard-mapping/acme/shard");
}

#[test]
fn test_non_utf8_lookup_body_is_a_miss() {
    let r = resolver();
    let now = 1_000_u64;
    let (state, action) = r.on_request_headers(Some("acme.example.com"));
    let _ = expect_read(action);
    let (state, action) = r.on_cache_read(state, None, now);
    expect_dispatch(action);
    let body = vec![0xff, 0xfe];
    let (_state, action) = r.on_lookup_response(state, Some(&body), now);
    assert_eq!(expect_read(action), "tenant:default");
}

#[test]
fn test_plan_headers() {
    let plan = plan_headers("shard7", Some("acme.example.com"));
    assert_eq!(plan.shard, "shard7");
    assert_eq!(plan.tenant_name, Some("acme".to_string()));

    let plan = plan_headers("shard7", Some("localhost"));
    assert_eq!(plan.tenant_name, None);

    let plan = plan_headers("shard7", None);
    assert_eq!(plan.tenant_name, None);

    assert_eq!(shard_header_name(), "x-tenant-shard");
    assert_eq!(tenant_header_name(), "x-tenant-name");
}

#[test]
fn test_dispatch_request_envelope() {
    let req = dispatch_request("/b/t/shard".to_string());
    assert_eq!(req.method, "GET");
    assert_eq!(req.path, "/b/t/shard");
    assert_eq!(req.authority, "localhost:8080");
    assert_eq!(req.scheme, "http");
    assert_eq!(req.timeout_seconds, 5);
}
