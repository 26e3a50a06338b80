use tenant_routing_core::cache::{
    decode_cache_entry, encode_cache_entry, generate_cache_key, parse_cache_key, CacheEntry,
};
use tenant_routing_core::config::TenantRoutingConfig;
use tenant_routing_core::tenant::{
    build_gcs_object_name, build_gcs_path, extract_tenant_from_host, is_ip_address,
    is_valid_tenant_name, normalize_shard_name,
};

#[test]
fn test_default_config() {
    let config = TenantRoutingConfig::default();
    assert_eq!(config.gcs_bucket, "tenant-shard-mapping");
    assert_eq!(config.cache_ttl_seconds, 300);
    assert_eq!(config.default_shard, "shard1");
}

#[test]
fn test_config_validation() {
    let valid_config = TenantRoutingConfig::new("my-bucket".to_string(), 300, "shard1".to_string());
    assert!(valid_config.validate().is_ok());

    let invalid_bucket = TenantRoutingConfig::new("".to_string(), 300, "shard1".to_string());
    assert_eq!(invalid_bucket.validate(), Err("GCS bucket name cannot be empty"));

    let invalid_shard = TenantRoutingConfig::new("my-bucket".to_string(), 300, "".to_string());
    assert_eq!(invalid_shard.validate(), Err("Default shard cannot be empty"));

    let invalid_ttl = TenantRoutingConfig::new("my-bucket".to_string(), 0, "shard1".to_string());
    assert_eq!(invalid_ttl.validate(), Err("Cache TTL must be greater than 0"));
}

#[test]
fn test_config_overrides() {
    let config = TenantRoutingConfig::default().with_overrides(
        Some("other-bucket".to_string()),
        None,
        Some("shard9".to_string()),
    );
    assert_eq!(config.gcs_bucket, "other-bucket");
    assert_eq!(config.cache_ttl_seconds, 300);
    assert_eq!(config.default_shard, "shard9");
}

#[test]
fn test_extract_tenant_from_host() {
    // Valid cases
    assert_eq!(extract_tenant_from_host("tenant1.example.com"), Some("tenant1".to_string()));
    assert_eq!(extract_tenant_from_host("tenant-2.example.com"), Some("tenant-2".to_string()));
    assert_eq!(extract_tenant_from_host("tenant_3.example.com"), Some("tenant_3".to_string()));
    assert_eq!(extract_tenant_from_host("tenant1.example.com:8080"), Some("tenant1".to_string()));
    assert_eq!(extract_tenant_from_host("sub.domain.example.com"), Some("sub".to_string()));

    // Invalid cases
    assert_eq!(extract_tenant_from_host("localhost"), None);
    assert_eq!(extract_tenant_from_host("example"), None);
    assert_eq!(extract_tenant_from_host("192.168.1.1"), None);
    assert_eq!(extract_tenant_from_host("10.0.0.1:8080"), None);
    assert_eq!(extract_tenant_from_host(""), None);
    assert_eq!(extract_tenant_from_host(".example.com"), None);
    assert_eq!(extract_tenant_from_host("tenant@.example.com"), None);
    assert_eq!(extract_tenant_from_host("tenant!.example.com"), None);
}

#[test]
fn test_is_ip_address() {
    assert!(is_ip_address("192.168.1.1"));
    assert!(is_ip_address("0.0.0.0"));
    assert!(is_ip_address("10"));
    assert!(is_ip_address("999.999.999.999"));
    assert!(!is_ip_address("4294967296"));
    assert!(!is_ip_address("1.2.3.x"));
    assert!(!is_ip_address("1..2"));
    assert!(!is_ip_address(""));
    assert!(!is_ip_address("example.com"));
}

#[test]
fn test_is_ip_address_accepts_plus_sign() {
    // u32 parsing admits one leading plus per segment.
    assert!(is_ip_address("+1"));
    assert!(is_ip_address("1.+2"));
    assert!(!is_ip_address("++1"));
    assert!(!is_ip_address("+"));
    assert!(!is_ip_address("1.+"));
    assert_eq!(extract_tenant_from_host("1.+2"), None);
}

#[test]
fn test_is_valid_tenant_name() {
    assert!(is_valid_tenant_name("tenant1"));
    assert!(is_valid_tenant_name("tenant-2"));
    assert!(is_valid_tenant_name("tenant_3"));
    assert!(!is_valid_tenant_name(""));
    assert!(!is_valid_tenant_name("tenant!"));
    assert!(!is_valid_tenant_name("te nant"));
    assert!(!is_valid_tenant_name("a+b"));
}

#[test]
fn test_unicode_tenant_and_shard() {
    // Tenant labels admit Unicode alphanumerics; shard names lower-case and
    // trim by the Unicode tables.
    assert!(is_valid_tenant_name("caf\u{e9}"));
    assert_eq!(
        extract_tenant_from_host("caf\u{e9}.example.com"),
        Some("caf\u{e9}".to_string())
    );
    assert_eq!(normalize_shard_name("  \u{c9}CLAIR  "), "\u{e9}clair");
    assert_eq!(normalize_shard_name("\u{a0}x\u{2003}"), "x");
}

#[test]
fn test_build_gcs_path() {
    assert_eq!(build_gcs_path("my-bucket", "tenant1"), "/my-bucket/tenant1/shard");
    assert_eq!(build_gcs_path("another-bucket", "tenant-2"), "/another-bucket/tenant-2/shard");
}

#[test]
fn test_build_gcs_object_name() {
    assert_eq!(build_gcs_object_name("tenant1"), "tenant1/shard");
    assert_eq!(build_gcs_object_name("tenant-2"), "tenant-2/shard");
}

#[test]
fn test_normalize_shard_name() {
    assert_eq!(normalize_shard_name("shard1"), "shard1");
    assert_eq!(normalize_shard_name("SHARD1"), "shard1");
    assert_eq!(normalize_shard_name("  shard1  "), "shard1");
    assert_eq!(normalize_shard_name("  SHARD1  \n"), "shard1");
}

#[test]
fn test_normalize_shard_name_insensitivity() {
    assert_eq!(normalize_shard_name("  SHARD1  "), normalize_shard_name("shard1"));
    let once = normalize_shard_name(" \t MiXeD cAsE 7 \r\n");
    let twice = normalize_shard_name(&once);
    assert_eq!(once, twice);
    assert_eq!(once, "mixed case 7");
}

#[test]
fn test_normalize_shard_name_edge_cases() {
    assert_eq!(normalize_shard_name(""), "");
    assert_eq!(normalize_shard_name(" \t\r\n "), "");
    assert_eq!(normalize_shard_name("a b"), "a b");
}

#[test]
fn test_extract_tenant_trailing_dot() {
    // A trailing dot still makes two labels, the second one empty.
    assert_eq!(extract_tenant_from_host("tenant1."), Some("tenant1".to_string()));
}

#[test]
fn test_cache_entry_creation() {
    let entry = CacheEntry::new("shard1".to_string(), 1000);
    assert_eq!(entry.shard, "shard1");
    assert_eq!(entry.expiry, 1000);
}

#[test]
fn test_cache_entry_validation() {
    let entry = CacheEntry::new("shard1".to_string(), 1000);

    // Valid when current time is before expiry
    assert!(entry.is_valid(999));

    // Invalid when current time is at or after expiry
    assert!(!entry.is_valid(1000));
    assert!(!entry.is_valid(1001));
}

#[test]
fn test_cache_entry_with_ttl() {
    let current_time = 1000;
    let ttl = 300;
    let entry = CacheEntry::with_ttl("shard1".to_string(), current_time, ttl);

    assert_eq!(entry.shard, "shard1");
    assert_eq!(entry.expiry, 1300);
    assert!(entry.is_valid(1299));
    assert!(!entry.is_valid(1300));
}

#[test]
fn test_cache_entry_with_ttl_normalizes() {
    let entry = CacheEntry::with_ttl("  Shard7\n".to_string(), 1000, 300);
    assert_eq!(entry.shard, "shard7");
}

#[test]
fn test_cache_key_generation() {
    assert_eq!(generate_cache_key("tenant1"), "tenant:tenant1");
    assert_eq!(generate_cache_key("tenant-2"), "tenant:tenant-2");
}

#[test]
fn test_cache_key_parsing() {
    assert_eq!(parse_cache_key("tenant:tenant1"), Some("tenant1".to_string()));
    assert_eq!(parse_cache_key("tenant:tenant-2"), Some("tenant-2".to_string()));
    assert_eq!(parse_cache_key("invalid"), None);
    assert_eq!(parse_cache_key(""), None);
}

#[test]
fn test_cache_entry_codec_round_trip() {
    let entry = CacheEntry::new("shard1".to_string(), 1000);
    let bytes = encode_cache_entry(&entry);
    let back = decode_cache_entry(&bytes).expect("encoded entry must decode");
    assert_eq!(back.shard, "shard1");
    assert_eq!(back.expiry, 1000);
}

#[test]
fn test_cache_entry_codec_shard_with_separator() {
    let entry = CacheEntry::new("a:b:c".to_string(), 0);
    let bytes = encode_cache_entry(&entry);
    let back = decode_cache_entry(&bytes).expect("encoded entry must decode");
    assert_eq!(back.shard, "a:b:c");
    assert_eq!(back.expiry, 0);
}

#[test]
fn test_cache_entry_codec_large_expiry() {
    let entry = CacheEntry::new("s".to_string(), u64::MAX);
    let bytes = encode_cache_entry(&entry);
    let back = decode_cache_entry(&bytes).expect("encoded entry must decode");
    assert_eq!(back.expiry, u64::MAX);
}

#[test]
fn test_decode_cache_entry_rejects_garbage() {
    assert!(decode_cache_entry(&vec![0xff, 0xfe]).is_none());
    assert!(decode_cache_entry(&b"noseparator".to_vec()).is_none());
    assert!(decode_cache_entry(&b":shard".to_vec()).is_none());
    assert!(decode_cache_entry(&b"12a:shard".to_vec()).is_none());
    assert!(decode_cache_entry(&b"99999999999999999999:x".to_vec()).is_none());
    assert!(decode_cache_entry(&Vec::new()).is_none());
}
