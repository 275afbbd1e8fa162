//! The HTTP response cache's rules: which requests look up the cache, which
//! upstream responses may be stored, for how long, and within which size.
use crate::backend::spec_duration_is_zero;
use crate::text::{eq_ignore_case, push_str_chars, str_eq_ignore_case};
use std::time::Duration;
use vstd::prelude::*;

verus! {

/// Bytes in one mebibyte.
pub const MIB: usize = 1048576;

/// The cache section of the gateway configuration.
#[derive(Debug, Clone, Copy)]
pub struct HttpCacheConfig {
    pub enabled: bool,
    pub max_size_mb: usize,
    pub default_ttl_seconds: u64,
}

/// Cache settings in the units the cache works with.
#[derive(Debug, Clone, Copy)]
pub struct CacheOptions {
    pub enabled: bool,
    pub max_size_bytes: usize,
    pub default_ttl: Duration,
}

/// The duration of `secs` whole seconds, as `Duration::from_secs` makes it.
pub uninterp spec fn spec_duration_from_secs(secs: u64) -> Duration;

/// `Duration::from_secs`; the result spans no time exactly when `secs` is 0.
#[verifier::external_body]
fn duration_from_secs(secs: u64) -> (d: Duration)
    ensures
        d == spec_duration_from_secs(secs),
        spec_duration_is_zero(d) == (secs == 0),
{
    Duration::from_secs(secs)
}

/// `mb` mebibytes in bytes, saturating at `usize::MAX`.
pub open spec fn spec_saturating_mib(mb: usize) -> usize {
    if mb * MIB > usize::MAX {
        usize::MAX
    } else {
        (mb * MIB) as usize
    }
}

pub fn saturating_mib(mb: usize) -> (bytes: usize)
    ensures
        bytes == spec_saturating_mib(mb),
{
    if mb > usize::MAX / MIB {
        assert(mb * MIB > usize::MAX) by (nonlinear_arith)
            requires
                mb > usize::MAX / MIB,
        ;
        usize::MAX
    } else {
        assert(mb * MIB <= usize::MAX) by (nonlinear_arith)
            requires
                mb <= usize::MAX / MIB,
        ;
        mb * MIB
    }
}

pub open spec fn spec_cache_options(cfg: HttpCacheConfig) -> CacheOptions {
    CacheOptions {
        enabled: cfg.enabled,
        max_size_bytes: spec_saturating_mib(cfg.max_size_mb),
        default_ttl: spec_duration_from_secs(cfg.default_ttl_seconds),
    }
}

impl CacheOptions {
    /// The options of a cache configuration: size in bytes (saturating), TTL
    /// in seconds.
    pub fn from_config(cfg: &HttpCacheConfig) -> (options: CacheOptions)
        ensures
            options == spec_cache_options(*cfg),
    {
        CacheOptions {
            enabled: cfg.enabled,
            max_size_bytes: saturating_mib(cfg.max_size_mb),
            default_ttl: duration_from_secs(cfg.default_ttl_seconds),
        }
    }
}

impl<'a> From<&'a HttpCacheConfig> for CacheOptions {
    fn from(cfg: &'a HttpCacheConfig) -> (options: Self) {
        CacheOptions::from_config(cfg)
    }
}

impl<'a> vstd::std_specs::convert::FromSpecImpl<&'a HttpCacheConfig> for CacheOptions {
    open spec fn obeys_from_spec() -> bool {
        true
    }

    open spec fn from_spec(v: &'a HttpCacheConfig) -> Self {
        spec_cache_options(*v)
    }
}

/// Only GET and HEAD requests (in any ASCII case) are looked up in the cache.
pub fn cache_lookup_method_allowed(method: &str) -> (allowed: bool)
    ensures
        allowed == (eq_ignore_case(method@, "GET"@) || eq_ignore_case(method@, "HEAD"@)),
{
    let get = str_eq_ignore_case(method, "GET");
    let head = str_eq_ignore_case(method, "HEAD");
    get || head
}

/// Whether a lookup is attempted: the cache is on, the method is GET or
/// HEAD, and the cache's own request rules admit the request.
pub fn cache_lookup_allowed(enabled: bool, method: &str, request_cacheable: bool) -> (allowed: bool)
    ensures
        allowed == (enabled && (eq_ignore_case(method@, "GET"@) || eq_ignore_case(method@, "HEAD"@))
            && request_cacheable),
{
    if !enabled {
        return false;
    }
    if !cache_lookup_method_allowed(method) {
        return false;
    }
    request_cacheable
}

pub open spec fn spec_body_limit_exceeded(current_len: usize, chunk_len: usize, limit: usize) -> bool {
    limit > 0 && (if current_len + chunk_len > usize::MAX {
        usize::MAX as int
    } else {
        current_len + chunk_len
    }) > limit
}

/// Whether buffering one more chunk passes a byte limit; a limit of zero
/// means none. The running total saturates.
pub fn cache_response_body_limit_exceeded(current_len: usize, chunk_len: usize, limit: usize) -> (exceeded: bool)
    ensures
        exceeded == spec_body_limit_exceeded(current_len, chunk_len, limit),
{
    limit > 0 && current_len.saturating_add(chunk_len) > limit
}

/// The same limit test for request bodies buffered for the AI gateway.
pub fn ai_request_body_limit_exceeded(current_len: usize, chunk_len: usize, limit: usize) -> (exceeded: bool)
    ensures
        exceeded == spec_body_limit_exceeded(current_len, chunk_len, limit),
{
    limit > 0 && current_len.saturating_add(chunk_len) > limit
}

/// How long a cached response stays fresh: the default TTL for success and
/// 404 responses, nothing for others or when the TTL is zero.
pub fn fresh_duration_for_status(status: u16, default_ttl_secs: u64) -> (ttl: Option<u64>)
    ensures
        ttl == (if default_ttl_secs == 0 {
            None
        } else if (200 <= status && status <= 299) || status == 404 {
            Some(default_ttl_secs)
        } else {
            None
        }),
{
    if default_ttl_secs == 0 {
        return None;
    }
    if (200 <= status && status <= 299) || status == 404 {
        Some(default_ttl_secs)
    } else {
        None
    }
}

/// Upstream statuses that may be stored: below 300, or 404.
pub fn response_status_may_be_cached(status: u16) -> (may: bool)
    ensures
        may == (status < 500 && (status < 300 || status == 404)),
{
    status < 500 && (status < 300 || status == 404)
}

/// The two parts of a cache key: `namespace/name` of the route, and the
/// request URL `https://{host}{path}`.
pub fn cache_key_parts(route_namespace: &str, route_name: &str, host: &str, path: &str) -> (parts: (
    String,
    String,
))
    ensures
        parts.0@ == route_namespace@ + "/"@ + route_name@,
        parts.1@ == "https://"@ + host@ + path@,
{
    let mut route = String::new();
    push_str_chars(&mut route, route_namespace);
    push_str_chars(&mut route, "/");
    push_str_chars(&mut route, route_name);
    let mut url = String::new();
    push_str_chars(&mut url, "https://");
    push_str_chars(&mut url, host);
    push_str_chars(&mut url, path);
    (route, url)
}

} // verus!
