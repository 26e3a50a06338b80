//! Validated routing configuration: mapping-store bucket, cache TTL, and the
//! statically configured default shard.

use vstd::prelude::*;

verus! {

/// Settings for the shard resolution engine. Constructed once at configure
/// time; the engine only ever runs with a configuration that passed
/// [`TenantRoutingConfig::validate`].
pub struct TenantRoutingConfig {
    pub gcs_bucket: String,
    pub cache_ttl_seconds: u64,
    pub default_shard: String,
}

impl TenantRoutingConfig {
    /// A configuration is well formed when the bucket and default shard are
    /// non-empty and the TTL is positive.
    pub open spec fn wf(&self) -> bool {
        &&& self.gcs_bucket@.len() > 0
        &&& self.default_shard@.len() > 0
        &&& self.cache_ttl_seconds > 0
    }

    pub fn new(gcs_bucket: String, cache_ttl_seconds: u64, default_shard: String) -> (r: Self)
        ensures
            r.gcs_bucket@ == gcs_bucket@,
            r.cache_ttl_seconds == cache_ttl_seconds,
            r.default_shard@ == default_shard@,
    {
        Self { gcs_bucket, cache_ttl_seconds, default_shard }
    }

    /// Accepts exactly the well-formed configurations; each way a
    /// configuration can be invalid yields its own error message, checked in
    /// the order bucket, default shard, TTL.
    pub fn validate(&self) -> (r: Result<(), &'static str>)
        ensures
            r is Ok <==> self.wf(),
            self.gcs_bucket@.len() == 0 ==> r == Result::<(), &'static str>::Err(
                "GCS bucket name cannot be empty",
            ),
            self.gcs_bucket@.len() > 0 && self.default_shard@.len() == 0 ==> r == Result::<
                (),
                &'static str,
            >::Err("Default shard cannot be empty"),
            self.gcs_bucket@.len() > 0 && self.default_shard@.len() > 0
                && self.cache_ttl_seconds == 0 ==> r == Result::<(), &'static str>::Err(
                "Cache TTL must be greater than 0",
            ),
    {
        if self.gcs_bucket.as_str().is_empty() {
            return Err("GCS bucket name cannot be empty");
        }
        if self.default_shard.as_str().is_empty() {
            return Err("Default shard cannot be empty");
        }
        if self.cache_ttl_seconds == 0 {
            return Err("Cache TTL must be greater than 0");
        }
        Ok(())
    }
}

impl TenantRoutingConfig {
    /// Applies configure-time overrides: each supplied field replaces the
    /// corresponding one, fields not supplied keep their current value. The
    /// host hands the engine only the fields it found in its raw
    /// configuration input.
    pub fn with_overrides(
        self,
        gcs_bucket: Option<String>,
        cache_ttl_seconds: Option<u64>,
        default_shard: Option<String>,
    ) -> (r: Self)
        ensures
            r.gcs_bucket@ == (match gcs_bucket {
                Option::Some(b) => b@,
                Option::None => self.gcs_bucket@,
            }),
            r.cache_ttl_seconds == (match cache_ttl_seconds {
                Option::Some(t) => t,
                Option::None => self.cache_ttl_seconds,
            }),
            r.default_shard@ == (match default_shard {
                Option::Some(s) => s@,
                Option::None => self.default_shard@,
            }),
    {
        let mut r = self;
        if let Some(b) = gcs_bucket {
            r.gcs_bucket = b;
        }
        if let Some(t) = cache_ttl_seconds {
            r.cache_ttl_seconds = t;
        }
        if let Some(s) = default_shard {
            r.default_shard = s;
        }
        r
    }
}

impl Clone for TenantRoutingConfig {
    fn clone(&self) -> (r: Self)
        ensures
            r.gcs_bucket@ == self.gcs_bucket@,
            r.cache_ttl_seconds == self.cache_ttl_seconds,
            r.default_shard@ == self.default_shard@,
    {
        Self {
            gcs_bucket: self.gcs_bucket.clone(),
            cache_ttl_seconds: self.cache_ttl_seconds,
            default_shard: self.default_shard.clone(),
        }
    }
}

impl Default for TenantRoutingConfig {
    /// The stock configuration used when no explicit settings are supplied.
    fn default() -> (r: Self)
        ensures
            r.gcs_bucket@ == "tenant-shard-mapping"@,
            r.cache_ttl_seconds == 300,
            r.default_shard@ == "shard1"@,
            r.wf(),
    {
        let r = TenantRoutingConfig {
            gcs_bucket: String::from_str("tenant-shard-mapping"),
            cache_ttl_seconds: 300,
            default_shard: String::from_str("shard1"),
        };
        proof {
            reveal_strlit("tenant-shard-mapping");
            reveal_strlit("shard1");
        }
        r
    }
}

} // verus!
