//! Upstream connection settings: backend protocols, request timeouts and the
//! options of the peer that the proxy connects to.
use crate::response::GatewayError;
use crate::text::{
    copy_str, eq_ignore_case, push_str_chars, spec_split_once, split_once_chars, str_chars,
    str_eq_ignore_case, string_from_chars,
};
use std::time::Duration;
use vstd::prelude::*;

verus! {

/// HTTP/2 streams allowed on one upstream connection.
pub const DEFAULT_MAX_H2_UPSTREAM_STREAMS: usize = 128;

/// Listener-wide socket tuning applied to upstream connections whose own
/// configuration leaves a setting unset.
#[derive(Debug, Clone)]
pub struct UpstreamTuningOptions {
    pub tcp_fast_open: bool,
    pub tcp_recv_buf: Option<usize>,
    pub connection_timeout: Option<Duration>,
    pub read_timeout: Option<Duration>,
    pub idle_timeout: Option<Duration>,
    pub dscp: Option<u8>,
}

impl Default for UpstreamTuningOptions {
    fn default() -> (options: Self)
        ensures
            !options.tcp_fast_open,
            options.tcp_recv_buf is None,
            options.connection_timeout is None,
            options.read_timeout is None,
            options.idle_timeout is None,
            options.dscp is None,
    {
        UpstreamTuningOptions {
            tcp_fast_open: false,
            tcp_recv_buf: None,
            connection_timeout: None,
            read_timeout: None,
            idle_timeout: None,
            dscp: None,
        }
    }
}

/// Whether a duration spans no time, as `Duration::is_zero` reports it.
pub uninterp spec fn spec_duration_is_zero(d: Duration) -> bool;

/// `Duration::is_zero`.
#[verifier::external_body]
fn duration_is_zero(d: Duration) -> (zero: bool)
    ensures
        zero == spec_duration_is_zero(d),
{
    d.is_zero()
}

/// Timeouts of a backend policy.
#[derive(Debug, Clone, Copy)]
pub struct BackendPolicy {
    pub connect_timeout: Option<Duration>,
    pub request_timeout: Option<Duration>,
}

/// Timeouts of an HTTP route rule.
#[derive(Debug, Clone, Copy)]
pub struct RouteTimeouts {
    pub request: Option<Duration>,
    pub backend_request: Option<Duration>,
}

pub open spec fn spec_route_request_timeout(timeouts: RouteTimeouts) -> Option<Duration> {
    match timeouts.backend_request {
        Some(t) => Some(t),
        None => timeouts.request,
    }
}

/// The backend-request timeout of a route, else its request timeout.
pub fn route_request_timeout(timeouts: &RouteTimeouts) -> (timeout: Option<Duration>)
    ensures
        timeout == spec_route_request_timeout(*timeouts),
{
    match timeouts.backend_request {
        Some(t) => Some(t),
        None => timeouts.request,
    }
}

pub open spec fn spec_effective_request_timeout(
    policy: Option<BackendPolicy>,
    route_timeouts: Option<RouteTimeouts>,
) -> Option<Duration> {
    let route_timeout = match route_timeouts {
        Some(t) => spec_route_request_timeout(t),
        None => None,
    };
    match route_timeout {
        Some(t) => if spec_duration_is_zero(t) {
            None
        } else {
            Some(t)
        },
        None => match policy {
            Some(p) => match p.request_timeout {
                Some(t) => if spec_duration_is_zero(t) {
                    None
                } else {
                    Some(t)
                },
                None => None,
            },
            None => None,
        },
    }
}

/// The request timeout in force: a route timeout wins over the backend
/// policy's; a zero timeout means none.
pub fn effective_request_timeout(
    policy: Option<&BackendPolicy>,
    route_timeouts: Option<&RouteTimeouts>,
) -> (timeout: Option<Duration>)
    ensures
        timeout == spec_effective_request_timeout(
            match policy {
                Some(p) => Some(*p),
                None => None,
            },
            match route_timeouts {
                Some(t) => Some(*t),
                None => None,
            },
        ),
{
    let route_timeout = match route_timeouts {
        Some(t) => route_request_timeout(t),
        None => None,
    };
    if let Some(t) = route_timeout {
        return if duration_is_zero(t) {
            None
        } else {
            Some(t)
        };
    }
    match policy {
        Some(p) => match p.request_timeout {
            Some(t) => if duration_is_zero(t) {
                None
            } else {
                Some(t)
            },
            None => None,
        },
        None => None,
    }
}

pub open spec fn spec_protocol_text(protocol: Option<Seq<char>>) -> Seq<char> {
    match protocol {
        Some(p) => p,
        None => Seq::empty(),
    }
}

pub open spec fn spec_is_http2_backend_protocol(protocol: Option<Seq<char>>) -> bool {
    let p = spec_protocol_text(protocol);
    eq_ignore_case(p, "grpc"@) || eq_ignore_case(p, "grpcs"@) || eq_ignore_case(p, "h2c"@)
        || eq_ignore_case(p, "http2"@) || eq_ignore_case(p, "http/2"@)
}

pub open spec fn spec_is_tls_backend_protocol(protocol: Option<Seq<char>>) -> bool {
    let p = spec_protocol_text(protocol);
    eq_ignore_case(p, "https"@) || eq_ignore_case(p, "grpcs"@)
}

pub open spec fn opt_view(s: Option<&str>) -> Option<Seq<char>> {
    match s {
        Some(v) => Some(v@),
        None => None,
    }
}

/// Whether a backend protocol is spoken over HTTP/2 (gRPC, h2c, HTTP/2),
/// ignoring ASCII case.
pub fn is_http2_backend_protocol(protocol: Option<&str>) -> (http2: bool)
    ensures
        http2 == spec_is_http2_backend_protocol(opt_view(protocol)),
{
    let p = match protocol {
        Some(p) => p,
        None => "",
    };
    proof {
        reveal_strlit("");
    }
    assert(p@ == spec_protocol_text(opt_view(protocol)));
    let grpc = str_eq_ignore_case(p, "grpc");
    let grpcs = str_eq_ignore_case(p, "grpcs");
    let h2c = str_eq_ignore_case(p, "h2c");
    let http_2 = str_eq_ignore_case(p, "http2");
    let http_slash_2 = str_eq_ignore_case(p, "http/2");
    grpc || grpcs || h2c || http_2 || http_slash_2
}

/// Whether a backend protocol runs over TLS (HTTPS, gRPCS), ignoring ASCII case.
pub fn is_tls_backend_protocol(protocol: Option<&str>) -> (tls: bool)
    ensures
        tls == spec_is_tls_backend_protocol(opt_view(protocol)),
{
    let p = match protocol {
        Some(p) => p,
        None => "",
    };
    proof {
        reveal_strlit("");
    }
    assert(p@ == spec_protocol_text(opt_view(protocol)));
    let a = str_eq_ignore_case(p, "https");
    let b = str_eq_ignore_case(p, "grpcs");
    a || b
}

/// Why no backend could be chosen for a request.
#[derive(Debug, Clone, Copy, PartialEq, Eq)]
pub enum BackendSelectionError {
    InvalidBackendRefs,
    NoHealthyBackends,
}

/// The gateway error reported for a failed backend selection.
pub fn error_for_backend_selection(error: BackendSelectionError) -> (out: GatewayError)
    ensures
        out == (match error {
            BackendSelectionError::InvalidBackendRefs => GatewayError::InvalidBackendRefs,
            BackendSelectionError::NoHealthyBackends => GatewayError::NoHealthyBackend,
        }),
{
    match error {
        BackendSelectionError::InvalidBackendRefs => GatewayError::InvalidBackendRefs,
        BackendSelectionError::NoHealthyBackends => GatewayError::NoHealthyBackend,
    }
}

/// The connection settings precomputed for a selected backend.
#[derive(Debug, Clone)]
pub struct BackendConnectionConfig {
    pub tls_enabled: bool,
    pub sni: String,
    pub use_http2: bool,
    pub connect_timeout: Option<Duration>,
    pub request_timeout: Option<Duration>,
    pub has_client_cert: bool,
}

/// TCP keepalive probing of an upstream connection: idle time before the
/// first probe, time between probes, and probes before giving up.
#[derive(Debug, Clone, Copy)]
pub struct TcpKeepalive {
    pub idle: Duration,
    pub interval: Duration,
    pub count: usize,
}

/// The options of one upstream peer.
#[derive(Debug, Clone)]
pub struct PeerOptions {
    pub tcp_keepalive: Option<TcpKeepalive>,
    pub tls: bool,
    pub sni: String,
    pub mutual_tls: bool,
    pub http2_only: bool,
    pub max_h2_streams: usize,
    pub connection_timeout: Option<Duration>,
    pub total_connection_timeout: Option<Duration>,
    pub read_timeout: Option<Duration>,
    pub write_timeout: Option<Duration>,
    pub idle_timeout: Option<Duration>,
    pub tcp_fast_open: bool,
    pub tcp_recv_buf: Option<usize>,
    pub dscp: Option<u8>,
}

pub open spec fn or_else<T>(first: Option<T>, second: Option<T>) -> Option<T> {
    match first {
        Some(v) => Some(v),
        None => second,
    }
}

/// The peer built for a backend: TLS and SNI only when TLS is on, mutual TLS
/// when a client certificate is configured, HTTP/2 with a stream cap when the
/// backend speaks it, the backend's timeouts, the listener's keepalive, and
/// the listener's tuning for whatever the backend leaves unset.
pub fn upstream_peer_options(
    config: &BackendConnectionConfig,
    tcp_keepalive: Option<TcpKeepalive>,
    tuning: &UpstreamTuningOptions,
) -> (options: PeerOptions)
    ensures
        options.tcp_keepalive == tcp_keepalive,
        options.tls == config.tls_enabled,
        options.sni@ == (if config.tls_enabled {
            config.sni@
        } else {
            Seq::empty()
        }),
        options.mutual_tls == (config.tls_enabled && config.has_client_cert),
        options.http2_only == config.use_http2,
        options.max_h2_streams == (if config.use_http2 {
            DEFAULT_MAX_H2_UPSTREAM_STREAMS
        } else {
            1
        }),
        options.connection_timeout == or_else(config.connect_timeout, tuning.connection_timeout),
        options.total_connection_timeout == config.connect_timeout,
        options.read_timeout == or_else(config.request_timeout, tuning.read_timeout),
        options.write_timeout == config.request_timeout,
        options.idle_timeout == tuning.idle_timeout,
        options.tcp_fast_open == tuning.tcp_fast_open,
        options.tcp_recv_buf == tuning.tcp_recv_buf,
        options.dscp == tuning.dscp,
{
    let mut options = PeerOptions {
        tcp_keepalive,
        tls: config.tls_enabled,
        sni: if config.tls_enabled {
            config.sni.clone()
        } else {
            String::new()
        },
        mutual_tls: config.tls_enabled && config.has_client_cert,
        http2_only: false,
        max_h2_streams: 1,
        connection_timeout: None,
        total_connection_timeout: None,
        read_timeout: None,
        write_timeout: None,
        idle_timeout: None,
        tcp_fast_open: false,
        tcp_recv_buf: None,
        dscp: None,
    };
    if config.use_http2 {
        options.http2_only = true;
        options.max_h2_streams = DEFAULT_MAX_H2_UPSTREAM_STREAMS;
    }
    options.connection_timeout = config.connect_timeout;
    options.total_connection_timeout = config.connect_timeout;
    options.read_timeout = config.request_timeout;
    options.write_timeout = config.request_timeout;
    if !options.tcp_fast_open {
        options.tcp_fast_open = tuning.tcp_fast_open;
    }
    if options.tcp_recv_buf.is_none() {
        options.tcp_recv_buf = tuning.tcp_recv_buf;
    }
    if options.connection_timeout.is_none() {
        options.connection_timeout = tuning.connection_timeout;
    }
    if options.read_timeout.is_none() {
        options.read_timeout = tuning.read_timeout;
    }
    if options.idle_timeout.is_none() {
        options.idle_timeout = tuning.idle_timeout;
    }
    if options.dscp.is_none() {
        options.dscp = tuning.dscp;
    }
    options
}

/// A backend's client certificate is named `namespace/name`: the part
/// before the first `/` and the rest.
pub fn client_certificate_ref_parts(reference: &str) -> (out: Result<(String, String), String>)
    ensures
        match spec_split_once(reference@, '/') {
            Some((namespace, name)) => out is Ok && out->Ok_0.0@ == namespace && out->Ok_0.1@ == name,
            None => out is Err && out->Err_0@ == "client certificate ref must use namespace/name"@,
        },
{
    let chars = str_chars(reference);
    match split_once_chars(chars.as_slice(), '/') {
        Some((namespace, name)) => Ok(
            (string_from_chars(namespace.as_slice()), string_from_chars(name.as_slice())),
        ),
        None => Err(copy_str("client certificate ref must use namespace/name")),
    }
}

/// The message refusing a client certificate secret that lacks the
/// certificate or the key; `None` when both are there.
pub fn client_certificate_material_error(namespace: &str, name: &str, cert_pem: &str, key_pem: &str)
    -> (out: Option<String>)
    ensures
        (cert_pem@.len() == 0 || key_pem@.len() == 0) <==> out is Some,
        out is Some ==> out->0@ == "secret "@ + namespace@ + "/"@ + name@
            + " does not contain tls.crt and tls.key"@,
{
    if cert_pem.is_empty() || key_pem.is_empty() {
        let mut message = copy_str("secret ");
        push_str_chars(&mut message, namespace);
        push_str_chars(&mut message, "/");
        push_str_chars(&mut message, name);
        push_str_chars(&mut message, " does not contain tls.crt and tls.key");
        Some(message)
    } else {
        None
    }
}

} // verus!
