//! Request-path logic of an HTTP gateway: CORS, redirects, header
//! modifiers, authentication filters, backend TLS names and the bookkeeping
//! that a proxy keeps per request.
use vstd::prelude::*;

pub mod backend;
pub mod basic_auth;
pub mod bench;
pub mod bench_filters;
pub mod cache;
pub mod cache_keys;
pub mod context;
pub mod cors;
pub mod extensions;
pub mod external_auth;
pub mod filter_chain;
pub mod filters;
pub mod request;
pub mod request_flow;
pub mod response;
pub mod headers;
pub mod ip_filter;
pub mod ir;
pub mod jwt;
pub mod numeric_date;
pub mod logging;
pub mod mirror;
pub mod oidc;
pub mod text;
pub mod tls;

verus! {
} // verus!
