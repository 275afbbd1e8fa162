use ntgw_http::context::ExcludedEndpoint;
use ntgw_http::external_auth::{
    allowed_response_headers, apply_external_auth_response_headers, auth_status_allows,
    build_auth_request, grpc_check_outcome, grpc_denied_headers, grpc_denied_status,
    grpc_request_headers,
    is_forbidden_backend_request_header, parse_auth_response_head, GrpcCheckDecision,
    GrpcCheckOutcome,
};
use ntgw_http::headers::HeaderList;
use ntgw_http::request_flow::{
    ai_api_key, ai_gateway_answer, ai_gateway_stops, begin_retry_selection, kept_mirror_positions,
    request_body_chunk_answer, early_request_decision,
    effective_max_request_body_bytes, external_auth_answer, external_auth_body_exceeded,
    external_auth_body_limit, fast_path_request_features_are_safe, first_filter_stage,
    http_version_label, max_connection_age_reached, missing_client_certificate_answer,
    next_flow_step, no_route_answer, retry_selection_step, upstream_response_plan,
    wasm_rejection_status, AiGatewayEvent, EarlyDecision, ExternalAuthEvent, FilterStage,
    FlowStep, HttpVersion, RetrySelectionStep, StageOutcome,
};

fn headers(fields: &[(&str, &str)]) -> HeaderList {
    let mut list = HeaderList::new();
    for (name, value) in fields {
        list.append(name, value);
    }
    list
}

fn rejected(decision: EarlyDecision) -> (u16, String) {
    match decision {
        EarlyDecision::Reject(answer) => (answer.status, answer.flag),
        other => panic!("not rejected: {other:?}"),
    }
}

#[test]
fn early_checks_run_in_order() {
    assert_eq!(
        rejected(early_request_decision(true, true, 10, 100, 10, 100, true)),
        (421, "MR".to_string())
    );
    assert_eq!(
        early_request_decision(false, true, 10, 100, 10, 100, true),
        EarlyDecision::MirrorSubrequest
    );
    assert_eq!(
        rejected(early_request_decision(false, false, 10, 11, 10, 100, true)),
        (431, "RH".to_string())
    );
    assert_eq!(
        rejected(early_request_decision(false, false, 10, 10, 10, 11, true)),
        (413, "RB".to_string())
    );
    assert_eq!(
        early_request_decision(false, false, 0, 1000, 10, 11, false),
        EarlyDecision::Continue
    );
    assert_eq!(
        early_request_decision(false, false, 0, 1000, 0, 1000, true),
        EarlyDecision::Continue
    );
}

#[test]
fn filter_stages_run_in_order_until_one_answers() {
    let mut step = first_filter_stage();
    let mut order = Vec::new();
    while let FlowStep::Run(stage) = step {
        order.push(stage);
        step = next_flow_step(stage, StageOutcome::Pass);
    }
    assert_eq!(step, FlowStep::Proxy);
    assert_eq!(order.len(), 11);
    assert_eq!(order[0], FilterStage::CorsPreflight);
    assert_eq!(order[5], FilterStage::BasicAuth);
    assert_eq!(order[10], FilterStage::AiGateway);
    assert_eq!(
        next_flow_step(FilterStage::Jwt, StageOutcome::Answered),
        FlowStep::Done
    );
}

#[test]
fn external_auth_answers() {
    assert_eq!(external_auth_answer(&ExternalAuthEvent::Allowed), None);
    let denied = external_auth_answer(&ExternalAuthEvent::Denied(403)).expect("answer");
    assert_eq!((denied.status, denied.flag.as_str()), (403, "EA"));
    let big = external_auth_answer(&ExternalAuthEvent::BodyTooLarge).expect("answer");
    assert_eq!(big.status, 413);
    for event in [
        ExternalAuthEvent::EndpointMissing,
        ExternalAuthEvent::BodyReadFailed,
        ExternalAuthEvent::CallFailed,
    ] {
        assert_eq!(external_auth_answer(&event).expect("answer").status, 500);
    }
    assert_eq!(external_auth_body_limit(Some(0)), None);
    assert_eq!(external_auth_body_limit(Some(64)), Some(64));
    assert_eq!(external_auth_body_limit(None), None);
    assert!(external_auth_body_exceeded(65, 64));
    assert!(!external_auth_body_exceeded(64, 64));
}

#[test]
fn wasm_and_ai_answers() {
    assert_eq!(wasm_rejection_status(200), 400);
    assert_eq!(wasm_rejection_status(451), 451);
    assert_eq!(wasm_rejection_status(999), 599);
    assert_eq!(ai_gateway_answer(AiGatewayEvent::BodyTooLarge).expect("a").status, 413);
    assert_eq!(ai_gateway_answer(AiGatewayEvent::Failed).expect("a").flag, "AR");
    assert!(ai_gateway_answer(AiGatewayEvent::UnsupportedFormat).is_none());
    assert!(ai_gateway_answer(AiGatewayEvent::Processed).is_none());
    assert_eq!(
        ai_api_key(&headers(&[("authorization", "Bearer sk-1"), ("x-api-key", "k2")])),
        Some("sk-1".to_string())
    );
    assert_eq!(
        ai_api_key(&headers(&[("authorization", "Basic x"), ("x-api-key", "k2")])),
        Some("k2".to_string())
    );
    assert_eq!(ai_api_key(&HeaderList::new()), None);
}

#[test]
fn small_request_decisions() {
    assert_eq!(http_version_label(HttpVersion::Http2), "HTTP/2.0");
    assert_eq!(http_version_label(HttpVersion::Other), "HTTP/?");
    let grpc = no_route_answer(true);
    assert_eq!((grpc.status, grpc.grpc_status.as_deref()), (200, Some("12")));
    let http = no_route_answer(false);
    assert_eq!((http.status, http.body.as_deref()), (404, Some("route not found")));
    assert_eq!(http.flag, "NR");
    assert!(fast_path_request_features_are_safe(false, false, false));
    assert!(!fast_path_request_features_are_safe(true, false, false));
    assert_eq!(effective_max_request_body_bytes(Some(10), 99), 10);
    assert_eq!(effective_max_request_body_bytes(None, 99), 99);
    assert!(max_connection_age_reached(Some(10), false, Some(10)));
    assert!(!max_connection_age_reached(Some(10), true, Some(50)));
    assert!(!max_connection_age_reached(None, false, Some(50)));
    assert!(!max_connection_age_reached(Some(10), false, None));
    let dc = missing_client_certificate_answer();
    assert_eq!((dc.status, dc.flag.as_str()), (499, "DC"));
}

#[test]
fn upstream_response_plans() {
    let plan = upstream_response_plan(503, true, true, true);
    assert!(plan.backend_failed);
    assert_eq!(plan.retry, Some(true));
    assert!(!plan.cache_candidate);
    let plan = upstream_response_plan(200, false, false, true);
    assert!(!plan.backend_failed && plan.cache_candidate && plan.retry.is_none());
    assert!(!upstream_response_plan(302, false, false, true).cache_candidate);
    assert!(!upstream_response_plan(200, false, false, false).cache_candidate);
}

#[test]
fn retry_selection_avoids_excluded_endpoints() {
    let bad = ExcludedEndpoint {
        backend_name: "b".to_string(),
        address: "10.0.0.1".to_string(),
        port: 80,
    };
    let good = ExcludedEndpoint {
        address: "10.0.0.2".to_string(),
        ..bad.clone()
    };
    let excluded = vec![bad.clone()];
    let mut selection = begin_retry_selection(excluded.len());
    assert_eq!(selection.attempts_left, 8);
    assert_eq!(
        retry_selection_step(&mut selection, Some(&bad), &excluded),
        RetrySelectionStep::Retry { keep_candidate: true }
    );
    assert_eq!(
        retry_selection_step(&mut selection, Some(&bad), &excluded),
        RetrySelectionStep::Retry { keep_candidate: false }
    );
    assert_eq!(
        retry_selection_step(&mut selection, Some(&good), &excluded),
        RetrySelectionStep::UseCandidate
    );
    assert_eq!(
        retry_selection_step(&mut selection, None, &excluded),
        RetrySelectionStep::NoBackend
    );
    let mut last = begin_retry_selection(0);
    for _ in 0..7 {
        assert!(matches!(
            retry_selection_step(&mut last, Some(&bad), &excluded),
            RetrySelectionStep::Retry { .. }
        ));
    }
    assert_eq!(
        retry_selection_step(&mut last, Some(&bad), &excluded),
        RetrySelectionStep::UseLastResort { keep_candidate: false }
    );
    assert_eq!(begin_retry_selection(20).attempts_left, 21);
}

#[test]
fn authorization_service_headers() {
    assert!(is_forbidden_backend_request_header("Host"));
    assert!(is_forbidden_backend_request_header(":authority"));
    assert!(!is_forbidden_backend_request_header("x-user"));
    let response = headers(&[
        ("X-User", "alice"),
        ("host", "evil"),
        ("x-other", "no"),
        ("x-user", "bob"),
    ]);
    let allowed = allowed_response_headers(
        &response,
        &["x-user".to_string(), "HOST".to_string()],
    );
    assert_eq!(allowed.len(), 2);
    assert_eq!(allowed.get_all("x-user"), vec!["alice".to_string(), "bob".to_string()]);

    let mut request = headers(&[("x-user", "forged"), ("accept", "*/*")]);
    let auth = headers(&[("X-Tenant", "t1"), ("X-Tenant", "t2"), ("bad name", "v"), ("host", "h")]);
    apply_external_auth_response_headers(&mut request, &auth);
    assert_eq!(request.get_all("x-tenant"), vec!["t1".to_string(), "t2".to_string()]);
    assert_eq!(request.get("accept").as_deref(), Some("*/*"));
    assert!(request.get("bad name").is_none());
    assert!(request.get("host").is_none());
    let mut replace = headers(&[("x-user", "forged")]);
    apply_external_auth_response_headers(&mut replace, &headers(&[("x-user", "real")]));
    assert_eq!(replace.get_all("x-user"), vec!["real".to_string()]);
}

#[test]
fn auth_request_bytes() {
    let request = headers(&[
        ("Authorization", "Bearer t"),
        ("x-trace", "1"),
        ("x-trace", "bad\r\nvalue"),
    ]);
    let bytes = build_auth_request(
        "POST",
        "",
        &request,
        &["X-Trace".to_string(), "authorization".to_string()],
        b"body",
    );
    assert_eq!(
        String::from_utf8(bytes).expect("utf8"),
        "POST / HTTP/1.1\r\nHost: external-auth\r\nConnection: close\r\nContent-Length: 4\r\nauthorization: Bearer t\r\nx-trace: 1\r\n\r\nbody"
    );
}

#[test]
fn auth_response_head_parsing() {
    let head = parse_auth_response_head(
        "HTTP/1.1 403 Forbidden\r\nX-Reason: nope \r\ncontent-length: 5\r\nbroken line\r\n\r\n",
    )
    .expect("head");
    assert_eq!(head.status, 403);
    assert_eq!(head.content_length, 5);
    assert_eq!(head.headers.get("x-reason").as_deref(), Some("nope"));
    assert_eq!(head.headers.len(), 2);
    assert!(parse_auth_response_head("garbage\r\n\r\n").is_none());
    assert!(parse_auth_response_head("HTTP/1.1 abc\r\n\r\n").is_none());
    let bad_length =
        parse_auth_response_head("HTTP/1.1 200 OK\r\nContent-Length: x\r\n\r\n").expect("head");
    assert_eq!(bad_length.content_length, 0);
    assert!(auth_status_allows(204));
    assert!(!auth_status_allows(302));
}

#[test]
fn grpc_check_answers() {
    assert_eq!(grpc_denied_status(Some(401)), 401);
    assert_eq!(grpc_denied_status(Some(42)), 403);
    assert_eq!(grpc_denied_status(Some(700)), 403);
    assert_eq!(grpc_denied_status(None), 403);
    assert_eq!(
        grpc_check_outcome(GrpcCheckDecision::OkResponse, Some(0)),
        GrpcCheckOutcome::Allow
    );
    assert_eq!(
        grpc_check_outcome(GrpcCheckDecision::OkResponse, Some(7)),
        GrpcCheckOutcome::ProtocolError("non-OK ext_authz status".to_string())
    );
    assert_eq!(
        grpc_check_outcome(GrpcCheckDecision::DeniedResponse, Some(7)),
        GrpcCheckOutcome::Deny
    );
    assert_eq!(
        grpc_check_outcome(GrpcCheckDecision::Missing, Some(0)),
        GrpcCheckOutcome::Allow
    );
    assert_eq!(
        grpc_check_outcome(GrpcCheckDecision::Missing, None),
        GrpcCheckOutcome::ProtocolError("ext_authz response missing HTTP decision".to_string())
    );
}

#[test]
fn grpc_check_headers_fold_repeats_and_filter_names() {
    let mut request = HeaderList::new();
    request.append("X-Id", "1");
    request.append("accept", "a");
    request.append("x-id", "2");
    let all = grpc_request_headers(&request, &[]);
    assert_eq!(
        all,
        vec![
            ("x-id".to_string(), "1,2".to_string()),
            ("accept".to_string(), "a".to_string())
        ]
    );
    let only = grpc_request_headers(&request, &["X-ID".to_string()]);
    assert_eq!(only, vec![("x-id".to_string(), "1,2".to_string())]);
}

#[test]
fn grpc_denial_head_sets_its_own_length() {
    let denied = vec![
        ("Content-Length".to_string(), "99".to_string()),
        ("x-reason".to_string(), "nope".to_string()),
        ("bad name".to_string(), "v".to_string()),
    ];
    let head = grpc_denied_headers(12, &denied);
    assert_eq!(head.len(), 2);
    assert_eq!(head.get("content-length").as_deref(), Some("12"));
    assert_eq!(head.get("x-reason").as_deref(), Some("nope"));
    assert!(head.get("bad name").is_none());
}

#[test]
fn ai_failures_answer_and_stop_the_request() {
    assert!(ai_gateway_stops(AiGatewayEvent::BodyTooLarge));
    assert!(ai_gateway_stops(AiGatewayEvent::BodyReadFailed));
    assert!(ai_gateway_stops(AiGatewayEvent::Failed));
    assert!(!ai_gateway_stops(AiGatewayEvent::UnsupportedFormat));
    assert_eq!(ai_gateway_answer(AiGatewayEvent::Failed).expect("answer").status, 500);
    assert!(!ai_gateway_stops(AiGatewayEvent::Processed));
}

#[test]
fn body_chunks_answer_413_and_keep_forwarding_mirrors() {
    let mut record = ntgw_http::context::RequestRecord::new(0);
    assert!(request_body_chunk_answer(&mut record, 8, 10).is_none());
    let answer = request_body_chunk_answer(&mut record, 8, 10).expect("over the limit");
    assert_eq!((answer.status, answer.flag.as_str()), (413, "RB"));
    assert_eq!(record.response_flags, "RB");
    assert_eq!(kept_mirror_positions(&[true, false, true]), vec![0, 2]);
    assert!(kept_mirror_positions(&[false]).is_empty());
}
