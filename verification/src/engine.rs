//! Shard resolution engine: the per-request state machine that composes
//! tenant extraction, the cache model, and the routing configuration.
//!
//! The engine decides; the host performs. Each step consumes the current
//! [`ResolutionState`] together with the host's answer to the previous
//! action and returns the next state and the next [`EngineAction`]. The host
//! owns the shared key/value store, the clock, and the dispatch transport,
//! so cache reads, cache writes, and lookup dispatches reach the engine only
//! as data.

use vstd::prelude::*;
use vstd::utf8::{decode_utf8, valid_utf8, encode_utf8};

use crate::cache::{
    decode_cache_entry, encode_cache_entry, entry_chars, generate_cache_key, generate_key_spec,
    parse_entry_chars, CacheEntry,
};
use crate::chars::{before_char, contains_char, find_char};
use crate::config::TenantRoutingConfig;
use crate::tenant::{
    build_gcs_path, extract_tenant_from_host, gcs_path_spec, normalize_spec, tenant_of_host,
};

verus! {

/// Where a request stands in the resolution chain. A request begins at
/// `Start`, before its headers have been seen. `CacheCheck` and
/// `AwaitingLookup` carry the tenant the current attempt is for;
/// `is_fallback` marks the attempt for the `default` tenant made after the
/// primary attempt missed, so the chain can never recurse a second time.
/// `Resolved` is terminal; `used_configured_default` tells a resolution
/// from the statically configured default shard apart from one backed by a
/// lookup or the cache.
pub enum ResolutionState {
    Start,
    CacheCheck { tenant: String, is_fallback: bool },
    AwaitingLookup { tenant: String, is_fallback: bool },
    Resolved { shard: String, used_configured_default: bool },
}

/// A pending write of an encoded cache entry into the shared store.
pub struct CacheWrite {
    pub key: String,
    pub value: Vec<u8>,
}

/// What the host must do next: read the shared store under a key, dispatch a
/// mapping-store lookup, or mutate headers with the resolved shard (after
/// performing the cache write, when one is carried) and resume the request.
pub enum EngineAction {
    ReadCache { key: String },
    Dispatch { path: String },
    Finish { shard: String, cache_write: Option<CacheWrite> },
}

/// The characters `default`, the tenant used when extraction yields none
/// and for the fallback attempt.
pub open spec fn default_tenant() -> Seq<char> {
    seq!['d', 'e', 'f', 'a', 'u', 'l', 't']
}

/// The tenant a request resolves for: the one extracted from the authority
/// header, or `default` when there is no authority or no tenant in it.
pub open spec fn request_tenant(authority: Option<Seq<char>>) -> Seq<char> {
    match authority {
        Some(h) => match tenant_of_host(h) {
            Some(t) => t,
            None => default_tenant(),
        },
        None => default_tenant(),
    }
}

/// The bytes behind an optional borrowed buffer.
pub open spec fn opt_bytes(raw: Option<&Vec<u8>>) -> Option<Seq<u8>> {
    match raw {
        Option::Some(v) => Some(v@),
        Option::None => None,
    }
}

/// What a raw cache read yields: the stored shard, but only when the bytes
/// decode as an entry that is still live at `now`. Corrupt bytes and
/// expired entries are indistinguishable from an absent key.
pub open spec fn cached_shard(raw: Option<Seq<u8>>, now: u64) -> Option<Seq<char>> {
    match raw {
        Option::None => None,
        Option::Some(v) => if valid_utf8(v) {
            match parse_entry_chars(decode_utf8(v)) {
                Option::Some(p) => if p.0 > now {
                    Some(p.1)
                } else {
                    None
                },
                Option::None => None,
            }
        } else {
            None
        },
    }
}

pub struct ShardResolver {
    pub config: TenantRoutingConfig,
}

impl ShardResolver {
    pub open spec fn wf(&self) -> bool {
        self.config.wf()
    }

    /// The transition taken on any miss or failure: fall back to a cache
    /// check for the `default` tenant if this was still the primary attempt
    /// for some other tenant; otherwise resolve to the configured default
    /// shard, writing nothing to the cache. This second branch is the one
    /// guaranteed terminal path.
    pub open spec fn miss_step(&self, tenant: Seq<char>, is_fallback: bool, r: (ResolutionState, EngineAction)) -> bool {
        if !is_fallback && tenant != default_tenant() {
            &&& (r.0 matches ResolutionState::CacheCheck { tenant: t2, is_fallback: f2 } && t2@
                == default_tenant() && f2)
            &&& (r.1 matches EngineAction::ReadCache { key } && key@ == generate_key_spec(
                default_tenant(),
            ))
        } else {
            &&& (r.0 matches ResolutionState::Resolved { shard, used_configured_default } && shard@
                == self.config.default_shard@ && used_configured_default)
            &&& (r.1 matches EngineAction::Finish { shard, cache_write } && shard@
                == self.config.default_shard@ && cache_write is None)
        }
    }

    /// Builds an engine around a configuration, refusing invalid ones: an
    /// engine never runs with an empty bucket, an empty default shard, or a
    /// zero TTL.
    pub fn new(config: TenantRoutingConfig) -> (r: Result<ShardResolver, &'static str>)
        ensures
            r matches Ok(e) ==> config.wf() && e.config == config,
            r is Err ==> !config.wf(),
    {
        match config.validate() {
            Ok(()) => Ok(ShardResolver { config }),
            Err(e) => Err(e),
        }
    }

    /// First step of a request: extract the tenant from the authority (or
    /// fall back to `default`) and ask the host for the cache entry under
    /// that tenant's key.
    pub fn on_request_headers(&self, authority: Option<&str>) -> (r: (ResolutionState, EngineAction))
        ensures
            (r.0 matches ResolutionState::CacheCheck { tenant, is_fallback } && tenant@
                == request_tenant(authority.deep_view()) && !is_fallback),
            (r.1 matches EngineAction::ReadCache { key } && key@ == generate_key_spec(
                request_tenant(authority.deep_view()),
            )),
    {
        let tenant: String = match authority {
            Some(a) => match extract_tenant_from_host(a) {
                Some(t) => t,
                None => String::from_str("default"),
            },
            None => String::from_str("default"),
        };
        proof {
            reveal_strlit("default");
            assert("default"@ =~= default_tenant());
            assert(tenant@ == request_tenant(authority.deep_view()));
        }
        let key = generate_cache_key(tenant.as_str());
        (ResolutionState::CacheCheck { tenant, is_fallback: false }, EngineAction::ReadCache { key })
    }

    /// Second step: the host hands back what the store held under the key.
    /// A live entry resolves the request synchronously with the stored
    /// shard and no cache write; anything else dispatches a mapping-store
    /// lookup for the same tenant.
    pub fn on_cache_read(
        &self,
        state: ResolutionState,
        raw: Option<&Vec<u8>>,
        now: u64,
    ) -> (r: (ResolutionState, EngineAction))
        requires
            state matches ResolutionState::CacheCheck { .. },
        ensures
            state matches ResolutionState::CacheCheck { tenant, is_fallback } ==> match cached_shard(
                opt_bytes(raw),
                now,
            ) {
                Option::Some(sh) => {
                    &&& (r.0 matches ResolutionState::Resolved {
                        shard,
                        used_configured_default,
                    } && shard@ == sh && !used_configured_default)
                    &&& (r.1 matches EngineAction::Finish { shard, cache_write } && shard@ == sh
                        && cache_write is None)
                },
                Option::None => {
                    &&& (r.0 matches ResolutionState::AwaitingLookup {
                        tenant: t2,
                        is_fallback: f2,
                    } && t2@ == tenant@ && f2 == is_fallback)
                    &&& (r.1 matches EngineAction::Dispatch { path } && path@ == gcs_path_spec(
                        self.config.gcs_bucket@,
                        tenant@,
                    ))
                },
            },
    {
        let (tenant, is_fallback) = match state {
            ResolutionState::CacheCheck { tenant, is_fallback } => (tenant, is_fallback),
            _ => {
                proof {
                    assert(false);
                }
                (String::new(), false)
            },
        };
        if let Some(v) = raw {
            if let Some(entry) = decode_cache_entry(v) {
                if entry.is_valid(now) {
                    let shard = entry.shard;
                    return (
                        ResolutionState::Resolved {
                            shard: shard.clone(),
                            used_configured_default: false,
                        },
                        EngineAction::Finish { shard, cache_write: None },
                    );
                }
            }
        }
        let path = build_gcs_path(self.config.gcs_bucket.as_str(), tenant.as_str());
        (
            ResolutionState::AwaitingLookup { tenant, is_fallback },
            EngineAction::Dispatch { path },
        )
    }

    /// Taken when the host could not even issue the dispatch: an immediate
    /// miss, driving the fallback chain synchronously.
    pub fn on_dispatch_failed(&self, state: ResolutionState) -> (r: (ResolutionState, EngineAction))
        requires
            state matches ResolutionState::AwaitingLookup { .. },
        ensures
            state matches ResolutionState::AwaitingLookup { tenant, is_fallback } ==> self.miss_step(
                tenant@,
                is_fallback,
                r,
            ),
    {
        let (tenant, is_fallback) = match state {
            ResolutionState::AwaitingLookup { tenant, is_fallback } => (tenant, is_fallback),
            _ => {
                proof {
                    assert(false);
                }
                (String::new(), false)
            },
        };
        self.miss(tenant, is_fallback)
    }

    /// Continuation of a dispatched lookup: a UTF-8 payload resolves the
    /// request with the normalized shard name and instructs the host to
    /// cache a fresh entry under the tenant the lookup was actually for; an
    /// absent or non-UTF-8 payload is a miss and drives the fallback chain.
    pub fn on_lookup_response(
        &self,
        state: ResolutionState,
        body: Option<&Vec<u8>>,
        now: u64,
    ) -> (r: (ResolutionState, EngineAction))
        requires
            state matches ResolutionState::AwaitingLookup { .. },
            now + self.config.cache_ttl_seconds <= u64::MAX,
        ensures
            state matches ResolutionState::AwaitingLookup { tenant, is_fallback } ==> match opt_bytes(body) {
                Option::Some(v) => if valid_utf8(v) {
                    let sh = normalize_spec(decode_utf8(v));
                    &&& (r.0 matches ResolutionState::Resolved {
                        shard,
                        used_configured_default,
                    } && shard@ == sh && !used_configured_default)
                    &&& (r.1 matches EngineAction::Finish { shard, cache_write } && shard@ == sh
                        && (cache_write matches Some(w) && w.key@ == generate_key_spec(tenant@)
                        && w.value@ == encode_utf8(
                        entry_chars(sh, now + self.config.cache_ttl_seconds),
                    )))
                } else {
                    self.miss_step(tenant@, is_fallback, r)
                },
                Option::None => self.miss_step(tenant@, is_fallback, r),
            },
    {
        let (tenant, is_fallback) = match state {
            ResolutionState::AwaitingLookup { tenant, is_fallback } => (tenant, is_fallback),
            _ => {
                proof {
                    assert(false);
                }
                (String::new(), false)
            },
        };
        if let Some(v) = body {
            if let Some(text) = crate::chars::bytes_to_string(v) {
                let entry = CacheEntry::with_ttl(text, now, self.config.cache_ttl_seconds);
                let value = encode_cache_entry(&entry);
                let key = generate_cache_key(tenant.as_str());
                let shard = entry.shard;
                return (
                    ResolutionState::Resolved {
                        shard: shard.clone(),
                        used_configured_default: false,
                    },
                    EngineAction::Finish {
                        shard,
                        cache_write: Some(CacheWrite { key, value }),
                    },
                );
            }
        }
        self.miss(tenant, is_fallback)
    }

    /// Shared miss path, as described by [`ShardResolver::miss_step`].
    fn miss(&self, tenant: String, is_fallback: bool) -> (r: (ResolutionState, EngineAction))
        ensures
            self.miss_step(tenant@, is_fallback, r),
    {
        let d = String::from_str("default");
        proof {
            reveal_strlit("default");
            assert("default"@ =~= default_tenant());
        }
        if !is_fallback && !tenant.eq(&d) {
            let key = generate_cache_key(d.as_str());
            (
                ResolutionState::CacheCheck { tenant: d, is_fallback: true },
                EngineAction::ReadCache { key },
            )
        } else {
            let shard = self.config.default_shard.clone();
            (
                ResolutionState::Resolved {
                    shard: shard.clone(),
                    used_configured_default: true,
                },
                EngineAction::Finish { shard, cache_write: None },
            )
        }
    }
}

/// The value the tenant-name header is set to: the part of the authority
/// before its first dot, set only when an authority is present and contains
/// a dot.
pub open spec fn tenant_header_spec(authority: Option<Seq<char>>) -> Option<Seq<char>> {
    match authority {
        Option::Some(h) => if contains_char(h, '.') {
            Some(before_char(h, '.'))
        } else {
            None
        },
        Option::None => None,
    }
}

/// The header mutation owed once a shard is resolved: remove any prior
/// shard-routing header, set it to `shard`, and, when the authority holds a
/// dot, set the tenant-name header to the label before it.
pub struct HeaderPlan {
    pub shard: String,
    pub tenant_name: Option<String>,
}

/// Computes the header mutation for a resolved shard.
pub fn plan_headers(shard: &str, authority: Option<&str>) -> (r: HeaderPlan)
    ensures
        r.shard@ == shard@,
        r.tenant_name.deep_view() == tenant_header_spec(authority.deep_view()),
{
    let tenant_name: Option<String> = match authority {
        Some(h) => {
            let n = h.unicode_len();
            let dot = find_char(h, '.');
            if dot < n {
                Some(h.substring_char(0, dot).to_owned())
            } else {
                None
            }
        },
        None => None,
    };
    HeaderPlan { shard: shard.to_owned(), tenant_name }
}

/// Name of the header carrying the resolved shard.
pub fn shard_header_name() -> (r: &'static str)
    ensures
        r@ == "x-tenant-shard"@,
{
    "x-tenant-shard"
}

/// Name of the header carrying the tenant label.
pub fn tenant_header_name() -> (r: &'static str)
    ensures
        r@ == "x-tenant-name"@,
{
    "x-tenant-name"
}

/// How a mapping-store lookup is dispatched: the request the host hands to
/// the transport, with the bounded timeout resolution uses.
pub struct DispatchRequest {
    pub method: String,
    pub path: String,
    pub authority: String,
    pub scheme: String,
    pub timeout_seconds: u64,
}

/// Fills in the fixed dispatch envelope around a lookup path.
pub fn dispatch_request(path: String) -> (r: DispatchRequest)
    ensures
        r.method@ == "GET"@,
        r.path@ == path@,
        r.authority@ == "localhost:8080"@,
        r.scheme@ == "http"@,
        r.timeout_seconds == 5,
{
    DispatchRequest {
        method: String::from_str("GET"),
        path,
        authority: String::from_str("localhost:8080"),
        scheme: String::from_str("http"),
        timeout_seconds: 5,
    }
}

} // verus!
