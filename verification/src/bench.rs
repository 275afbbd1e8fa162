//! Benchmark configurations and the measurements that one benchmark step
//! reports, with the synthetic inputs the benchmarks are built from.
use crate::text::{decimal, push_decimal, push_str_chars, seq_join};
use vstd::prelude::*;

verus! {

/// Shape of the header-heavy request used by the request-metadata benchmarks.
#[derive(Debug, Clone, Copy)]
pub struct RequestMetaBuildBenchConfig {
    pub header_count: usize,
    pub values_per_header: usize,
    pub query_params: usize,
    pub header_value_bytes: usize,
}

impl Default for RequestMetaBuildBenchConfig {
    fn default() -> (config: Self)
        ensures
            config.header_count == 96,
            config.values_per_header == 2,
            config.query_params == 24,
            config.header_value_bytes == 48,
    {
        RequestMetaBuildBenchConfig {
            header_count: 96,
            values_per_header: 2,
            query_params: 24,
            header_value_bytes: 48,
        }
    }
}

/// What materialising request metadata observed.
#[derive(Debug, Clone)]
pub struct RequestMetaBuildStep {
    pub path: String,
    pub header_name_count: usize,
    pub header_value_count: usize,
    pub header_name_bytes: usize,
    pub header_value_bytes: usize,
    pub request_header_bytes: usize,
    pub query_param_count: usize,
    pub query_value_count: usize,
    pub request_id: String,
    pub content_length: usize,
}

/// What capturing a request view observed.
#[derive(Debug, Clone)]
pub struct RequestViewBuildStep {
    pub host: String,
    pub path: String,
    pub method: String,
    pub client_ip: String,
    pub header_name_count: usize,
    pub header_value_count: usize,
    pub header_name_bytes: usize,
    pub header_value_bytes: usize,
    pub request_header_bytes: usize,
    pub query_param_count: usize,
    pub query_value_count: usize,
    pub request_id: String,
    pub content_length: usize,
}

/// Size of the filter chains used by the filter benchmark.
#[derive(Debug, Clone, Copy)]
pub struct FilterChainBenchConfig {
    pub request_filters: usize,
    pub response_filters: usize,
    pub header_ops_per_filter: usize,
}

impl Default for FilterChainBenchConfig {
    fn default() -> (config: Self)
        ensures
            config.request_filters == 8,
            config.response_filters == 8,
            config.header_ops_per_filter == 3,
    {
        FilterChainBenchConfig { request_filters: 8, response_filters: 8, header_ops_per_filter: 3 }
    }
}

/// What one pass through the filter chains observed.
#[derive(Debug, Clone)]
pub struct FilterChainStep {
    pub request_header_count: usize,
    pub response_header_count: usize,
    pub request_marker: String,
    pub response_marker: String,
}

/// Session timeouts used by the session-persistence benchmark.
#[derive(Debug, Clone, Copy)]
pub struct SessionBenchConfig {
    pub absolute_timeout_secs: u64,
    pub idle_timeout_secs: u64,
}

impl Default for SessionBenchConfig {
    fn default() -> (config: Self)
        ensures
            config.absolute_timeout_secs == 300,
            config.idle_timeout_secs == 60,
    {
        SessionBenchConfig { absolute_timeout_secs: 300, idle_timeout_secs: 60 }
    }
}

/// What one session encode/decode cycle observed.
#[derive(Debug, Clone)]
pub struct SessionBenchStep {
    pub backend_name: String,
    pub endpoint_address: String,
    pub endpoint_port: u32,
    pub token_len: usize,
}

/// Size of the backend TLS validation whose cache key is benchmarked.
#[derive(Debug, Clone, Copy)]
pub struct TlsCacheKeyBenchConfig {
    pub ca_pem_count: usize,
    pub ca_pem_bytes: usize,
    pub san_count: usize,
}

impl Default for TlsCacheKeyBenchConfig {
    fn default() -> (config: Self)
        ensures
            config.ca_pem_count == 3,
            config.ca_pem_bytes == 2048,
            config.san_count == 4,
    {
        TlsCacheKeyBenchConfig { ca_pem_count: 3, ca_pem_bytes: 2048, san_count: 4 }
    }
}

/// What building one TLS validation cache key observed.
#[derive(Debug, Clone)]
pub struct TlsCacheKeyStep {
    pub cache_key_hash: u64,
    pub ca_pem_total_bytes: usize,
    pub san_count: usize,
}

/// `param{i}=value{i}`.
pub open spec fn bench_query_param(i: nat) -> Seq<char> {
    "param"@ + decimal(i) + "="@ + "value"@ + decimal(i)
}

/// The query parameters `param0=value0` .. `param{n-1}=value{n-1}`, joined by `&`.
pub open spec fn bench_query(n: nat) -> Seq<char> {
    seq_join(Seq::new(n, |i: int| bench_query_param(i as nat)), "&"@)
}

/// `/bench/header-heavy?` followed by `query_params` numbered parameters.
pub fn header_heavy_uri(query_params: usize) -> (uri: String)
    ensures
        uri@ == "/bench/header-heavy?"@ + bench_query(query_params as nat),
{
    let mut uri = String::new();
    push_str_chars(&mut uri, "/bench/header-heavy?");
    let ghost prefix = uri@;
    let ghost list = Seq::new(query_params as nat, |i: int| bench_query_param(i as nat));
    let mut index: usize = 0;
    while index < query_params
        invariant
            index <= query_params,
            prefix == "/bench/header-heavy?"@,
            list == Seq::new(query_params as nat, |i: int| bench_query_param(i as nat)),
            uri@ == prefix + seq_join(list.take(index as int), "&"@),
        decreases query_params - index,
    {
        let ghost before = uri@;
        assert(list.take(index + 1).drop_last() =~= list.take(index as int));
        assert(list.take(index + 1).last() == bench_query_param(index as nat));
        if index > 0 {
            uri.push('&');
        }
        push_str_chars(&mut uri, "param");
        push_decimal(&mut uri, index as u64);
        uri.push('=');
        push_str_chars(&mut uri, "value");
        push_decimal(&mut uri, index as u64);
        proof {
            let item = bench_query_param(index as nat);
            reveal_strlit("&");
            reveal_strlit("=");
            if index == 0 {
                assert(seq_join(list.take(0), "&"@) =~= Seq::<char>::empty());
                assert(list.take(1).len() == 1);
                assert(seq_join(list.take(1), "&"@) == list.take(1)[0]);
                assert(uri@ =~= prefix + item);
            } else {
                assert(uri@ =~= before + "&"@ + item);
                assert(uri@ =~= prefix + (seq_join(list.take(index as int), "&"@) + "&"@ + item));
            }
        }
        index = index + 1;
    }
    assert(list.take(query_params as int) =~= list);
    uri
}

/// A header value of `bytes` letters `v`.
pub fn padded_header_value(bytes: usize) -> (value: String)
    ensures
        value@ == Seq::new(bytes as nat, |i: int| 'v'),
{
    let mut value = String::new();
    let mut i: usize = 0;
    while i < bytes
        invariant
            i <= bytes,
            value@ == Seq::new(i as nat, |k: int| 'v'),
        decreases bytes - i,
    {
        value.push('v');
        i = i + 1;
        assert(value@ =~= Seq::new(i as nat, |k: int| 'v'));
    }
    value
}

} // verus!
