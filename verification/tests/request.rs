use ntgw_http::context::{
    remember_transport_retry_excluded_endpoint, route_budget_key, route_kind_name,
    saturating_latency_ms, upstream_addr, ExcludedEndpoint, RequestRecord, RouteKind,
};
use ntgw_http::headers::HeaderList;
use ntgw_http::logging::{
    access_log_connection_fields, build_request_line, capture_access_log_headers, completion_plan,
    extract_request_header, request_route_labels, SelectedRouteLabels,
};
use ntgw_http::request::{
    effective_http_protocol, normalize_authority_host_ref, parse_usize,
    remove_downstream_close_connection_token, request_content_length, request_header_bytes,
    request_header_bytes_for_limit, request_host_value, request_id_from_headers,
    request_is_grpc, response_filter_request_headers, grpc_content_type_headers, request_headers,
    selection_request_meta,
};
use ntgw_http::context::is_transport_retry_excluded;

fn headers(fields: &[(&str, &str)]) -> HeaderList {
    let mut list = HeaderList::new();
    for (name, value) in fields {
        list.append(name, value);
    }
    list
}

#[test]
fn authority_host_drops_port_and_brackets() {
    assert_eq!(normalize_authority_host_ref("example.com:8080"), "example.com");
    assert_eq!(normalize_authority_host_ref("example.com"), "example.com");
    assert_eq!(normalize_authority_host_ref("[::1]:443"), "::1");
    assert_eq!(normalize_authority_host_ref("[::1"), "::1");
    assert_eq!(
        request_host_value(None, Some("a.test:1")),
        Some("a.test:1".to_string())
    );
    assert_eq!(request_host_value(Some("h"), Some("a")), Some("h".to_string()));
    assert_eq!(request_host_value(None, None), None);
}

#[test]
fn request_id_prefers_x_request_id() {
    let all = headers(&[
        ("traceparent", "00-abc"),
        ("X-Correlation-Id", "corr"),
        ("x-request-id", "rid"),
    ]);
    assert_eq!(request_id_from_headers(&all), "rid");
    let some = headers(&[("traceparent", "00-abc"), ("x-correlation-id", "corr")]);
    assert_eq!(request_id_from_headers(&some), "corr");
    assert_eq!(request_id_from_headers(&HeaderList::new()), "");
}

#[test]
fn content_length_parses_like_usize() {
    assert_eq!(request_content_length(&headers(&[("content-length", "1234")])), 1234);
    assert_eq!(request_content_length(&headers(&[("content-length", "+7")])), 7);
    assert_eq!(request_content_length(&headers(&[("content-length", "-7")])), 0);
    assert_eq!(request_content_length(&headers(&[("content-length", "")])), 0);
    assert_eq!(request_content_length(&HeaderList::new()), 0);
    assert_eq!(parse_usize("0042"), Some(42));
    assert_eq!(parse_usize("+"), None);
}

#[test]
fn header_bytes_count_names_and_values() {
    let list = headers(&[("host", "a.test"), ("x", "é")]);
    assert_eq!(request_header_bytes(&list), 4 + 6 + 1 + 2);
    assert_eq!(request_header_bytes_for_limit(&list, 0), 0);
    assert_eq!(request_header_bytes_for_limit(&list, 100), 13);
}

#[test]
fn grpc_requests_are_recognised_by_content_type() {
    assert!(request_is_grpc(&headers(&[("content-type", "application/grpc+proto")])));
    assert!(request_is_grpc(&headers(&[
        ("content-type", "text/plain"),
        ("Content-Type", "application/grpc")
    ])));
    assert!(!request_is_grpc(&headers(&[("content-type", "application/json")])));
}

#[test]
fn response_filters_see_only_cors_request_headers() {
    let list = headers(&[
        ("origin", "https://a"),
        ("accept", "*/*"),
        ("Cookie", "s=1"),
        ("authorization", "Bearer x"),
    ]);
    let kept = response_filter_request_headers(&list);
    assert_eq!(kept.len(), 3);
    assert_eq!(kept.get("origin").as_deref(), Some("https://a"));
    assert!(kept.get("accept").is_none());
}

#[test]
fn close_token_is_dropped_from_connection() {
    let mut list = headers(&[("connection", "keep-alive, Close"), ("x", "1"), ("Connection", "upgrade,")]);
    remove_downstream_close_connection_token(&mut list);
    assert_eq!(list.get_all("connection"), vec!["keep-alive, upgrade".to_string()]);
    assert_eq!(list.get("x").as_deref(), Some("1"));

    let mut only_close = headers(&[("connection", "close")]);
    remove_downstream_close_connection_token(&mut only_close);
    assert_eq!(only_close.len(), 0);

    let mut untouched = headers(&[("connection", "keep-alive")]);
    remove_downstream_close_connection_token(&mut untouched);
    assert_eq!(untouched.get("connection").as_deref(), Some("keep-alive"));
}

#[test]
fn protocol_label_falls_back_to_route_kind() {
    assert_eq!(effective_http_protocol("HTTPS", "Grpc"), "HTTPS");
    assert_eq!(effective_http_protocol("", "grpc"), "GRPC");
    assert_eq!(effective_http_protocol("", "Http"), "HTTP");
}

#[test]
fn context_labels_keys_and_latency() {
    assert_eq!(route_kind_name(RouteKind::Grpc), "Grpc");
    assert_eq!(route_kind_name(RouteKind::Tls), "Tls");
    assert_eq!(route_budget_key("Http", "default", "web"), "Http/default/web");
    assert_eq!(saturating_latency_ms(12), 12);
    assert_eq!(saturating_latency_ms(u128::MAX), u64::MAX);
    assert_eq!(upstream_addr("10.0.0.1", 8080), "10.0.0.1:8080");
}

#[test]
fn excluded_endpoints_are_remembered_once() {
    let endpoint = ExcludedEndpoint {
        backend_name: "default/api:80".to_string(),
        address: "10.0.0.1".to_string(),
        port: 80,
    };
    let mut list = Vec::new();
    remember_transport_retry_excluded_endpoint(&mut list, endpoint.clone());
    remember_transport_retry_excluded_endpoint(&mut list, endpoint.clone());
    assert_eq!(list.len(), 1);
    let other = ExcludedEndpoint {
        port: 81,
        ..endpoint
    };
    remember_transport_retry_excluded_endpoint(&mut list, other);
    assert_eq!(list.len(), 2);
}

#[test]
fn request_record_counts_connections_and_clears() {
    let mut record = RequestRecord::new(4);
    record.record_upstream_connection(true, 0, 0);
    assert_eq!(record.upstream_pool_hits, 1);
    record.connecting = true;
    record.record_upstream_connection(false, 25, 2);
    assert_eq!(record.upstream_pool_misses, 1);
    assert_eq!(record.upstream_connect_latency_ms, 25);
    assert_eq!(record.upstream_connect_latency_ms_max, 25);
    assert_eq!(record.upstream_connect_latency_ms_buckets, vec![0, 0, 1, 0]);
    assert!(!record.connecting);
    record.record_upstream_connection(false, 99, 3);
    assert_eq!(record.upstream_connect_latency_ms, 25);
    record.upstream_pool_hits = u32::MAX;
    record.record_upstream_connection(true, 0, 0);
    assert_eq!(record.upstream_pool_hits, u32::MAX);
    record.record_upstream_peer_build_failure();
    assert_eq!(record.upstream_peer_build_failures, 1);

    record.answer(404, "NR");
    record.set_display_fields(true, RouteKind::Http, "web", "default", "l", "HTTP", "b");
    assert_eq!(record.route_kind, "Http");
    record.clear();
    assert_eq!(record.status, 0);
    assert_eq!(record.route_kind, "");
    assert_eq!(record.upstream_pool_hits, 0);
    assert_eq!(record.upstream_connect_latency_ms_buckets, vec![0, 0, 0, 0]);
}

#[test]
fn route_labels_prefer_selected_backends() {
    let mut record = RequestRecord::new(0);
    record.route_name = "ctx-route".to_string();
    let selected = SelectedRouteLabels {
        listener_name: "l".to_string(),
        listener_protocol: String::new(),
        route_namespace: "ns".to_string(),
        route_name: "sel".to_string(),
        route_kind: RouteKind::Grpc,
        backend_name: "b".to_string(),
    };
    let labels = request_route_labels(Some(&selected), None, &record);
    assert_eq!(labels.route_name, "sel");
    assert_eq!(labels.route_kind, "Grpc");
    assert_eq!(labels.effective_protocol(), "GRPC");
    let fast = request_route_labels(None, Some(&selected), &record);
    assert_eq!(fast.route_name, "sel");
    let plain = request_route_labels(None, None, &record);
    assert_eq!(plain.route_name, "ctx-route");
    assert_eq!(plain.effective_protocol(), "HTTP");
}

#[test]
fn access_log_fields() {
    assert_eq!(build_request_line("GET", "/a", "", ""), "GET /a HTTP/1.1");
    assert_eq!(build_request_line("POST", "/a", "x=1", "HTTP/2.0"), "POST /a?x=1 HTTP/2.0");
    let captured = headers(&[("referer", "")]);
    let request = headers(&[("referer", "https://r"), ("user-agent", "ua")]);
    assert_eq!(extract_request_header(&captured, Some(&request), "referer"), "-");
    assert_eq!(extract_request_header(&HeaderList::new(), Some(&request), "user-agent"), "ua");
    assert_eq!(extract_request_header(&HeaderList::new(), None, "user-agent"), "-");

    let mut captured = HeaderList::new();
    capture_access_log_headers(
        &mut captured,
        &request,
        &["user-agent".to_string(), "x-missing".to_string()],
    );
    assert_eq!(captured.get("user-agent").as_deref(), Some("ua"));
    assert_eq!(captured.len(), 1);

    let (scheme, port) = access_log_connection_fields(true, true, true, None, Some(443));
    assert_eq!(scheme.as_deref(), Some("https"));
    assert_eq!(port, Some(Some(443)));
    let (scheme, port) = access_log_connection_fields(false, false, true, Some(1), Some(2));
    assert!(scheme.is_none() && port.is_none());

    let plan = completion_plan(true, true, true);
    assert!(!plan.observe_traffic && !plan.write_access_log);
    let plan = completion_plan(false, true, true);
    assert!(plan.observe_traffic && plan.write_access_log);
}

#[test]
fn close_token_law_on_mixed_case_fields() {
    let mut list = headers(&[("Connection", " CLOSE , te ,, close"), ("connection", "Upgrade")]);
    remove_downstream_close_connection_token(&mut list);
    assert_eq!(list.get_all("connection"), vec!["te, Upgrade".to_string()]);
}

#[test]
fn request_record_body_and_failure_bookkeeping() {
    let mut record = RequestRecord::new(0);
    assert!(!record.record_request_body_chunk(10, 15));
    assert!(record.record_request_body_chunk(10, 15));
    assert_eq!(record.bytes_received, 20);
    assert_eq!(record.response_flags, "RB");
    let mut mirror = RequestRecord::new(0);
    mirror.is_mirror_subrequest = true;
    assert!(!mirror.record_request_body_chunk(10, 5));
    assert_eq!(mirror.bytes_received, 0);

    let mut failed = RequestRecord::new(0);
    assert!(failed.record_proxy_failure(502, "UF", false));
    assert_eq!(failed.status, 502);
    assert_eq!(failed.response_flags, "UF");
    assert!(!failed.record_proxy_failure(0, "DC", false));
    assert_eq!(failed.response_flags, "UF");
    assert!(!failed.record_proxy_failure(504, "UT", true));
    failed.record_written_status(Some(200));
    assert_eq!(failed.status, 200);
    failed.record_written_status(None);
    assert_eq!(failed.status, 200);
}

#[test]
fn request_record_buffers_until_the_cache_limit() {
    let mut record = RequestRecord::new(0);
    assert_eq!(record.buffer_response_chunk(Some(4), 10, false), (false, false));
    record.http_cache_active = true;
    assert_eq!(record.buffer_response_chunk(Some(4), 10, false), (true, false));
    assert_eq!(record.buffer_response_chunk(None, 10, false), (false, false));
    assert_eq!(record.cached_response_body_bytes, 4);
    assert_eq!(record.buffer_response_chunk(Some(7), 10, false), (false, true));
    assert!(!record.http_cache_active);
    assert_eq!(record.cached_response_body_bytes, 0);
    assert_eq!(record.buffer_response_chunk(Some(7), 10, true), (true, false));

    assert!(!record.take_backend_observation(false));
    assert!(record.take_backend_observation(true));
    assert!(!record.take_backend_observation(true));
}

#[test]
fn transport_exclusions_are_found_by_endpoint() {
    let endpoint = ExcludedEndpoint {
        backend_name: "b".to_string(),
        address: "10.0.0.1".to_string(),
        port: 80,
    };
    let list = vec![endpoint.clone()];
    assert!(is_transport_retry_excluded(&list, &endpoint));
    let other = ExcludedEndpoint { port: 81, ..endpoint };
    assert!(!is_transport_retry_excluded(&list, &other));
}

#[test]
fn selection_meta_lowercases_or_keeps_grpc_types() {
    let list = headers(&[("Content-Type", "application/grpc+proto"), ("X-A", "1")]);
    let lower = request_headers(&list);
    assert_eq!(lower.get_all("x-a"), vec!["1".to_string()]);
    let grpc = grpc_content_type_headers(&list);
    assert_eq!(grpc.len(), 1);
    assert_eq!(grpc.get("content-type").as_deref(), Some("application/grpc+proto"));

    let meta = selection_request_meta(None, Some("api.test"), 443, "/a?b", "GET", &list, None, false);
    assert_eq!(meta.host.as_deref(), Some("api.test"));
    assert_eq!(meta.port, 443);
    assert_eq!(meta.path, "/a?b");
    assert_eq!(meta.headers.len(), 1);
    let full = selection_request_meta(Some("h"), Some("a"), 80, "/", "POST", &list, Some("1.2.3.4".to_string()), true);
    assert_eq!(full.host.as_deref(), Some("h"));
    assert_eq!(full.headers.len(), 2);
    assert_eq!(full.source_ip.as_deref(), Some("1.2.3.4"));
}

#[test]
fn completing_a_request_hands_back_the_record_and_clears_it() {
    let mut record = RequestRecord::new(2);
    record.status = 200;
    record.path = "/a".to_string();
    record.route_annotations.push(("k".to_string(), "v".to_string()));
    record.backend_selected = true;
    let (plan, finished) = ntgw_http::logging::complete_request(&mut record, true, true);
    assert!(plan.observe_traffic && plan.write_access_log);
    assert_eq!(finished.status, 200);
    assert_eq!(finished.path, "/a");
    assert_eq!(record.status, 0);
    assert!(record.path.is_empty());
    assert!(record.route_annotations.is_empty());
    assert!(!record.backend_selected);
    assert_eq!(record.upstream_connect_latency_ms_buckets, vec![0, 0]);

    let mut mirror = RequestRecord::new(0);
    mirror.is_mirror_subrequest = true;
    let (plan, _) = ntgw_http::logging::complete_request(&mut mirror, true, true);
    assert!(!plan.observe_traffic && !plan.write_access_log);
}

fn annotation<'a>(list: &'a [(String, String)], name: &str) -> Option<&'a str> {
    list.iter().find(|(k, _)| k == name).map(|(_, v)| v.as_str())
}

#[test]
fn route_annotations_for_log_prefers_selected_backend_annotations() {
    let mut record = RequestRecord::new(0);
    record.route_annotations = vec![("stale".to_string(), "1".to_string())];
    let selected = vec![(
        "gateway.nantian.dev/access-log-mode".to_string(),
        "json".to_string(),
    )];
    let annotations =
        ntgw_http::logging::access_log_route_annotations(Some(&selected), None, &record);
    assert_eq!(annotation(annotations, "gateway.nantian.dev/access-log-mode"), Some("json"));
    assert!(annotation(annotations, "stale").is_none());
}

#[test]
fn route_annotations_for_log_prefers_fast_selected_backend_annotations() {
    let mut record = RequestRecord::new(0);
    record.route_annotations = vec![("stale".to_string(), "1".to_string())];
    let fast = vec![(
        "gateway.nantian.dev/access-log-sample-rate".to_string(),
        "0".to_string(),
    )];
    let annotations = ntgw_http::logging::access_log_route_annotations(None, Some(&fast), &record);
    assert_eq!(
        annotation(annotations, "gateway.nantian.dev/access-log-sample-rate"),
        Some("0")
    );
    assert!(annotation(annotations, "stale").is_none());
}

#[test]
fn route_annotations_for_log_uses_context_annotations_without_selected_backend() {
    let mut record = RequestRecord::new(0);
    record.route_annotations = vec![(
        "gateway.nantian.dev/access-log-mode".to_string(),
        "json".to_string(),
    )];
    let annotations = ntgw_http::logging::access_log_route_annotations(None, None, &record);
    assert_eq!(annotation(annotations, "gateway.nantian.dev/access-log-mode"), Some("json"));
}

#[test]
fn access_log_sample_key_uses_runtime_ids_as_numeric_keys() {
    let mut record = RequestRecord::new(0);
    record.request_id = "req-1".to_string();
    record.started_at_unix_ms = 123;
    record.listener_name = "default/gw/http".to_string();
    record.route_name = "orders".to_string();
    record.route_namespace = "default".to_string();
    record.backend = "default/orders:8080".to_string();
    let labels = request_route_labels(None, None, &record);
    let ids = ntgw_http::logging::RuntimeIds {
        listener: Some(7),
        route: Some(11),
        backend: Some(13),
    };
    let key = ntgw_http::logging::access_log_sample_key(&labels, &ids, &record);
    assert_eq!(key.event, "http_request");
    assert_eq!(key.listener, "default/gw/http");
    assert_eq!(key.listener_runtime_id, Some(7));
    assert_eq!(key.route_runtime_id, Some(11));
    assert_eq!(key.backend_runtime_id, Some(13));
    assert_eq!(key.request_id, "req-1");
    assert_eq!(key.route_name, "orders");
    assert_eq!(key.backend, "default/orders:8080");
    assert_eq!(key.start_time_unix_ms, 123);
}
