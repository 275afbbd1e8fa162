use std::time::Duration;

use ntgw_http::backend::{
    client_certificate_material_error, client_certificate_ref_parts,
    effective_request_timeout, error_for_backend_selection, is_http2_backend_protocol,
    is_tls_backend_protocol, route_request_timeout, upstream_peer_options, BackendConnectionConfig,
    BackendPolicy, BackendSelectionError, RouteTimeouts, TcpKeepalive, UpstreamTuningOptions,
    DEFAULT_MAX_H2_UPSTREAM_STREAMS,
};
use ntgw_http::cache::{
    ai_request_body_limit_exceeded, cache_key_parts, cache_lookup_allowed,
    cache_lookup_method_allowed, cache_response_body_limit_exceeded, fresh_duration_for_status,
    response_status_may_be_cached, saturating_mib, CacheOptions, HttpCacheConfig,
};
use ntgw_http::response::GatewayError;

#[test]
fn backend_protocols_are_case_insensitive() {
    for p in ["grpc", "GRPCS", "h2c", "Http2", "HTTP/2"] {
        assert!(is_http2_backend_protocol(Some(p)), "{p}");
    }
    assert!(!is_http2_backend_protocol(Some("http")));
    assert!(!is_http2_backend_protocol(None));
    assert!(is_tls_backend_protocol(Some("https")));
    assert!(is_tls_backend_protocol(Some("GrpcS")));
    assert!(!is_tls_backend_protocol(Some("grpc")));
    assert!(!is_tls_backend_protocol(None));
}

#[test]
fn route_timeouts_win_and_zero_means_none() {
    let policy = BackendPolicy {
        connect_timeout: None,
        request_timeout: Some(Duration::from_secs(5)),
    };
    let route = RouteTimeouts {
        request: Some(Duration::from_secs(2)),
        backend_request: None,
    };
    assert_eq!(route_request_timeout(&route), Some(Duration::from_secs(2)));
    assert_eq!(
        effective_request_timeout(Some(&policy), Some(&route)),
        Some(Duration::from_secs(2))
    );
    let backend_first = RouteTimeouts {
        request: Some(Duration::from_secs(2)),
        backend_request: Some(Duration::from_secs(1)),
    };
    assert_eq!(
        effective_request_timeout(Some(&policy), Some(&backend_first)),
        Some(Duration::from_secs(1))
    );
    let zero = RouteTimeouts {
        request: Some(Duration::ZERO),
        backend_request: None,
    };
    assert_eq!(effective_request_timeout(Some(&policy), Some(&zero)), None);
    assert_eq!(
        effective_request_timeout(Some(&policy), None),
        Some(Duration::from_secs(5))
    );
    assert_eq!(effective_request_timeout(None, None), None);
}

#[test]
fn peer_options_take_backend_settings_then_listener_tuning() {
    let config = BackendConnectionConfig {
        tls_enabled: true,
        sni: "api.internal".to_string(),
        use_http2: true,
        connect_timeout: None,
        request_timeout: Some(Duration::from_secs(3)),
        has_client_cert: true,
    };
    let tuning = UpstreamTuningOptions {
        tcp_fast_open: true,
        tcp_recv_buf: Some(4096),
        connection_timeout: Some(Duration::from_secs(1)),
        read_timeout: Some(Duration::from_secs(9)),
        idle_timeout: Some(Duration::from_secs(60)),
        dscp: Some(10),
    };
    let options = upstream_peer_options(&config, None, &tuning);
    assert!(options.tls && options.mutual_tls && options.http2_only);
    assert_eq!(options.sni, "api.internal");
    assert_eq!(options.max_h2_streams, DEFAULT_MAX_H2_UPSTREAM_STREAMS);
    assert_eq!(options.connection_timeout, Some(Duration::from_secs(1)));
    assert_eq!(options.total_connection_timeout, None);
    assert_eq!(options.read_timeout, Some(Duration::from_secs(3)));
    assert_eq!(options.write_timeout, Some(Duration::from_secs(3)));
    assert_eq!(options.idle_timeout, Some(Duration::from_secs(60)));
    assert_eq!(options.tcp_recv_buf, Some(4096));
    assert_eq!(options.dscp, Some(10));

    let plain = BackendConnectionConfig {
        tls_enabled: false,
        ..config
    };
    let options = upstream_peer_options(&plain, None, &UpstreamTuningOptions::default());
    assert!(!options.tls && !options.mutual_tls);
    assert_eq!(options.sni, "");
    assert!(!options.tcp_fast_open);
}

#[test]
fn backend_selection_errors_map_to_gateway_errors() {
    assert_eq!(
        error_for_backend_selection(BackendSelectionError::InvalidBackendRefs),
        GatewayError::InvalidBackendRefs
    );
    assert_eq!(
        error_for_backend_selection(BackendSelectionError::NoHealthyBackends),
        GatewayError::NoHealthyBackend
    );
}

#[test]
fn cache_options_convert_megabytes_and_seconds() {
    let options = CacheOptions::from(&HttpCacheConfig {
        enabled: true,
        max_size_mb: 64,
        default_ttl_seconds: 30,
    });
    assert!(options.enabled);
    assert_eq!(options.max_size_bytes, 64 * 1024 * 1024);
    assert_eq!(options.default_ttl, Duration::from_secs(30));
    assert_eq!(saturating_mib(usize::MAX), usize::MAX);
}

#[test]
fn cache_lookup_rules() {
    assert!(cache_lookup_method_allowed("GET"));
    assert!(cache_lookup_method_allowed("head"));
    assert!(!cache_lookup_method_allowed("POST"));
    assert!(cache_lookup_allowed(true, "get", true));
    assert!(!cache_lookup_allowed(false, "GET", true));
    assert!(!cache_lookup_allowed(true, "GET", false));
}

#[test]
fn cache_body_limits_saturate() {
    assert!(!cache_response_body_limit_exceeded(10, 5, 0));
    assert!(!cache_response_body_limit_exceeded(10, 5, 15));
    assert!(cache_response_body_limit_exceeded(10, 6, 15));
    assert!(cache_response_body_limit_exceeded(usize::MAX, 1, usize::MAX - 1));
    assert!(!ai_request_body_limit_exceeded(usize::MAX, 1, usize::MAX));
    assert!(ai_request_body_limit_exceeded(3, 3, 5));
}

#[test]
fn cache_freshness_and_storable_statuses() {
    assert_eq!(fresh_duration_for_status(200, 60), Some(60));
    assert_eq!(fresh_duration_for_status(404, 60), Some(60));
    assert_eq!(fresh_duration_for_status(301, 60), None);
    assert_eq!(fresh_duration_for_status(200, 0), None);
    assert!(response_status_may_be_cached(200));
    assert!(response_status_may_be_cached(404));
    assert!(!response_status_may_be_cached(302));
    assert!(!response_status_may_be_cached(503));
}

#[test]
fn cache_key_parts_name_route_and_url() {
    let (route, url) = cache_key_parts("default", "web", "app.test", "/a?b=1");
    assert_eq!(route, "default/web");
    assert_eq!(url, "https://app.test/a?b=1");
}

#[test]
fn client_certificate_refs_and_material() {
    assert_eq!(
        client_certificate_ref_parts("default/client-cert"),
        Ok(("default".to_string(), "client-cert".to_string()))
    );
    assert_eq!(
        client_certificate_ref_parts("a/b/c"),
        Ok(("a".to_string(), "b/c".to_string()))
    );
    assert_eq!(
        client_certificate_ref_parts("no-namespace"),
        Err("client certificate ref must use namespace/name".to_string())
    );
    assert_eq!(
        client_certificate_material_error("default", "cert", "", "KEY"),
        Some("secret default/cert does not contain tls.crt and tls.key".to_string())
    );
    assert_eq!(client_certificate_material_error("default", "cert", "CERT", "KEY"), None);
}

#[test]
fn peer_options_carry_the_listener_keepalive() {
    let config = BackendConnectionConfig {
        tls_enabled: false,
        sni: String::new(),
        use_http2: false,
        connect_timeout: None,
        request_timeout: None,
        has_client_cert: false,
    };
    let keepalive = TcpKeepalive {
        idle: Duration::from_secs(60),
        interval: Duration::from_secs(5),
        count: 3,
    };
    let options = upstream_peer_options(&config, Some(keepalive), &UpstreamTuningOptions::default());
    let got = options.tcp_keepalive.expect("keepalive");
    assert_eq!((got.idle, got.interval, got.count), (Duration::from_secs(60), Duration::from_secs(5), 3));
}
