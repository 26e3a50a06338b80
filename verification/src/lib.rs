//! Tenant-to-shard routing core: hostname tenant extraction, a TTL-bounded
//! cache model with a byte-level entry codec, validated routing configuration,
//! and the per-request shard resolution state machine.

pub mod chars;
pub mod tenant;
pub mod cache;
pub mod config;
pub mod engine;
