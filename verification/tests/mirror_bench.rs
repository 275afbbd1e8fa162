use ntgw_http::bench::{
    header_heavy_uri, padded_header_value, FilterChainBenchConfig, RequestMetaBuildBenchConfig,
    SessionBenchConfig, TlsCacheKeyBenchConfig,
};
use ntgw_http::cache_keys::{
    ca_bundle_frames, le_bytes_u64, nonzero_group_key, subject_alt_name_frames,
    BackendTlsValidationCacheKey, ClientCertCacheKey,
};
use ntgw_http::ir::{BackendSubjectAltName, BackendTlsValidation};
use ntgw_http::mirror::{
    acquire_request_mirror_permit, configure_request_mirror_budget, mirror_forward_plan,
    mirror_forward_step, MirrorForwardStep, MirrorSend,
    permit_adjustment, request_mirror_budget_limit, should_warn, PermitAdjustment,
    RequestMirrorBudget, MAX_ACTIVE_REQUEST_MIRRORS, MIRROR_WARN_INTERVAL,
};

#[test]
fn mirror_budget_is_set_once_and_at_least_one() {
    let mut budget = RequestMirrorBudget::new();
    assert_eq!(request_mirror_budget_limit(&budget), MAX_ACTIVE_REQUEST_MIRRORS);
    configure_request_mirror_budget(&mut budget, 0);
    assert_eq!(request_mirror_budget_limit(&budget), 1);
    configure_request_mirror_budget(&mut budget, 50);
    assert_eq!(request_mirror_budget_limit(&budget), 1);
}

#[test]
fn mirror_permits_follow_the_limit() {
    let mut budget = RequestMirrorBudget::new();
    configure_request_mirror_budget(&mut budget, 2);
    let first = acquire_request_mirror_permit(&mut budget);
    let second = acquire_request_mirror_permit(&mut budget);
    let third = acquire_request_mirror_permit(&mut budget);
    assert!(first.is_some() && second.is_some());
    assert!(third.is_none());
    drop(first);
    assert!(acquire_request_mirror_permit(&mut budget).is_some());
}

#[test]
fn configuring_after_first_use_resizes_the_semaphore() {
    let mut budget = RequestMirrorBudget::new();
    let held: Vec<_> = (0..3)
        .map(|_| acquire_request_mirror_permit(&mut budget).expect("permit"))
        .collect();
    configure_request_mirror_budget(&mut budget, 4);
    assert_eq!(request_mirror_budget_limit(&budget), 4);
    let more: Vec<_> = (0..4)
        .map(|_| acquire_request_mirror_permit(&mut budget).expect("permit"))
        .collect();
    assert!(acquire_request_mirror_permit(&mut budget).is_none());
    drop(more);
    drop(held);
}

#[test]
fn permit_adjustment_moves_to_the_limit() {
    assert_eq!(permit_adjustment(3, 10), PermitAdjustment::Add(7));
    assert_eq!(permit_adjustment(10, 3), PermitAdjustment::Forget(7));
    assert_eq!(permit_adjustment(5, 5), PermitAdjustment::Keep);
}

#[test]
fn warnings_are_rate_limited() {
    assert!(should_warn(1, MIRROR_WARN_INTERVAL));
    assert!(!should_warn(2, MIRROR_WARN_INTERVAL));
    assert!(should_warn(256, MIRROR_WARN_INTERVAL));
    assert!(should_warn(512, MIRROR_WARN_INTERVAL));
}

#[test]
fn mirror_forwarding_plan() {
    let plan = mirror_forward_plan(true, Some(5), true);
    assert!(plan.send_body && plan.send_done);
    let plan = mirror_forward_plan(true, Some(0), false);
    assert!(!plan.send_body && !plan.send_done);
    let plan = mirror_forward_plan(false, Some(5), true);
    assert!(!plan.send_body && !plan.send_done);
}

#[test]
fn bench_defaults() {
    let meta = RequestMetaBuildBenchConfig::default();
    assert_eq!(
        (meta.header_count, meta.values_per_header, meta.query_params, meta.header_value_bytes),
        (96, 2, 24, 48)
    );
    let chain = FilterChainBenchConfig::default();
    assert_eq!(
        (chain.request_filters, chain.response_filters, chain.header_ops_per_filter),
        (8, 8, 3)
    );
    let session = SessionBenchConfig::default();
    assert_eq!((session.absolute_timeout_secs, session.idle_timeout_secs), (300, 60));
    let tls = TlsCacheKeyBenchConfig::default();
    assert_eq!((tls.ca_pem_count, tls.ca_pem_bytes, tls.san_count), (3, 2048, 4));
}

#[test]
fn bench_inputs() {
    assert_eq!(header_heavy_uri(0), "/bench/header-heavy?");
    assert_eq!(
        header_heavy_uri(3),
        "/bench/header-heavy?param0=value0&param1=value1&param2=value2"
    );
    assert_eq!(padded_header_value(4), "vvvv");
    assert_eq!(padded_header_value(0), "");
}

#[test]
fn frames_prefix_each_text_with_its_length() {
    assert_eq!(le_bytes_u64(0x0102), vec![2, 1, 0, 0, 0, 0, 0, 0]);
    let frames = ca_bundle_frames(&["ab".to_string(), "".to_string()]);
    assert_eq!(
        frames,
        vec![2, 0, 0, 0, 0, 0, 0, 0, b'a', b'b', 0, 0, 0, 0, 0, 0, 0, 0]
    );
    let sans = subject_alt_name_frames(&[BackendSubjectAltName {
        kind: "DNS".to_string(),
        value: "x".to_string(),
    }]);
    assert_eq!(
        sans,
        vec![3, 0, 0, 0, 0, 0, 0, 0, b'D', b'N', b'S', 1, 0, 0, 0, 0, 0, 0, 0, b'x']
    );
}

#[test]
fn cache_keys_digest_their_material() {
    let validation = BackendTlsValidation {
        hostname: "backend-0.bench.internal".to_string(),
        use_system_ca_certificates: true,
        ca_pems: vec!["pem".to_string()],
        subject_alt_names: vec![],
        min_version: "1.2".to_string(),
        max_version: "1.3".to_string(),
    };
    let key = BackendTlsValidationCacheKey::new(&validation);
    assert_eq!(key, BackendTlsValidationCacheKey::new(&validation));
    assert_eq!(key.ca_bundle_sha256.len(), 32);
    assert_eq!(key.hostname, "backend-0.bench.internal");
    let other = BackendTlsValidation {
        ca_pems: vec!["other".to_string()],
        ..validation
    };
    assert_ne!(key, BackendTlsValidationCacheKey::new(&other));

    let client = ClientCertCacheKey::new("ns", "cert", "CERT", "KEY");
    assert_eq!(client.cert_pem_sha256.len(), 32);
    assert_ne!(client.cert_pem_sha256, client.key_pem_sha256);
    assert_eq!(nonzero_group_key(0), 1);
    assert_eq!(nonzero_group_key(7), 7);
}

#[test]
fn mirror_forwarding_stops_at_the_first_failed_send() {
    let plan = mirror_forward_plan(true, Some(5), true);
    assert_eq!(mirror_forward_step(plan, 0, true), MirrorForwardStep::Send(MirrorSend::Body));
    assert_eq!(mirror_forward_step(plan, 1, true), MirrorForwardStep::Send(MirrorSend::Done));
    assert_eq!(mirror_forward_step(plan, 2, true), MirrorForwardStep::Finished(true));
    assert_eq!(mirror_forward_step(plan, 1, false), MirrorForwardStep::Finished(false));
    let done_only = mirror_forward_plan(true, None, true);
    assert_eq!(mirror_forward_step(done_only, 0, true), MirrorForwardStep::Send(MirrorSend::Done));
    let nothing = mirror_forward_plan(false, Some(5), true);
    assert_eq!(mirror_forward_step(nothing, 0, true), MirrorForwardStep::Finished(true));
}

#[test]
fn configuring_an_existing_semaphore_keeps_it_usable() {
    let mut budget = RequestMirrorBudget::new();
    let held = acquire_request_mirror_permit(&mut budget).expect("permit");
    configure_request_mirror_budget(&mut budget, 1);
    assert_eq!(request_mirror_budget_limit(&budget), 1);
    drop(held);
    let again = acquire_request_mirror_permit(&mut budget);
    assert!(again.is_some());
}

#[test]
fn filter_chain_fixture_applies_request_and_response_headers() {
    let fixture = ntgw_http::bench_filters::FilterChainFixture::build(FilterChainBenchConfig {
        request_filters: 2,
        response_filters: 2,
        header_ops_per_filter: 2,
    });

    let step = fixture.apply().expect("filter chain step");

    assert!(step.request_header_count >= 4);
    assert!(step.response_header_count >= 4);
    assert_eq!(step.request_marker, "set-0-0");
    assert_eq!(step.response_marker, "set-0-0");
    // host, then per filter two set and two added fields; removables are gone
    assert_eq!(step.request_header_count, 9);
    assert_eq!(step.response_header_count, 8);
}
