use ntgw_http::ir::{BackendSubjectAltName, BackendTlsValidation};
use ntgw_http::tls::{
    backend_certificate_matches_subject_alt_names, backend_tls_service_name,
    backend_tls_sni_name, backend_tls_validation_plan, downstream_tls_client_certificate_present,
    downstream_tls_server_name, hostname_subject_alt_name_matches,
    normalize_backend_tls_hostname, wildcard_backend_tls_hostname_matches, DownstreamTlsInfo,
    PresentedSubjectAltName,
};
use ntgw_http::response::GatewayError;

fn chars(s: &str) -> Vec<char> {
    s.chars().collect()
}

#[test]
fn service_name_from_namespace_service_and_port() {
    assert_eq!(
        backend_tls_service_name("default/api:8443"),
        Some("api.default.svc".to_string())
    );
    assert_eq!(
        backend_tls_service_name("ns/svc:with:colons:80"),
        Some("svc:with:colons.ns.svc".to_string())
    );
    assert_eq!(backend_tls_service_name("noslash:80"), None);
    assert_eq!(backend_tls_service_name("/api:80"), None);
    assert_eq!(backend_tls_service_name("ns/:80"), None);
    assert_eq!(backend_tls_service_name("ns/api"), None);
}

#[test]
fn sni_prefers_the_validation_hostname() {
    let validation = BackendTlsValidation {
        hostname: "api.internal".to_string(),
        ..BackendTlsValidation::default()
    };
    assert_eq!(
        backend_tls_sni_name("default/api:8443", Some(&validation)),
        Some("api.internal".to_string())
    );
    assert_eq!(
        backend_tls_sni_name("default/api:8443", Some(&BackendTlsValidation::default())),
        Some("api.default.svc".to_string())
    );
    assert_eq!(
        backend_tls_sni_name("default/api:8443", None),
        Some("api.default.svc".to_string())
    );
}

#[test]
fn hostnames_are_trimmed_undotted_and_lowercased() {
    assert_eq!(normalize_backend_tls_hostname("  API.Example.COM.. "), "api.example.com");
    assert_eq!(normalize_backend_tls_hostname("..."), "");
}

#[test]
fn wildcards_match_one_or_more_labels_in_front() {
    assert!(wildcard_backend_tls_hostname_matches(
        &chars("*.example.com"),
        &chars("a.example.com")
    ));
    assert!(wildcard_backend_tls_hostname_matches(
        &chars("*.example.com"),
        &chars("a.b.example.com")
    ));
    assert!(!wildcard_backend_tls_hostname_matches(
        &chars("*.example.com"),
        &chars("example.com")
    ));
    assert!(!wildcard_backend_tls_hostname_matches(
        &chars("*.example.com"),
        &chars("aexample.com")
    ));
    assert!(!wildcard_backend_tls_hostname_matches(
        &chars("a.example.com"),
        &chars("a.example.com")
    ));
    assert!(hostname_subject_alt_name_matches(
        &chars("a.example.com"),
        &chars("a.example.com")
    ));
}

fn dns(name: &str) -> PresentedSubjectAltName {
    PresentedSubjectAltName {
        dns_name: Some(name.to_string()),
        uri: None,
    }
}

fn san(kind: &str, value: &str) -> BackendSubjectAltName {
    BackendSubjectAltName {
        kind: kind.to_string(),
        value: value.to_string(),
    }
}

#[test]
fn subject_alt_names_match_hostnames_and_uris() {
    let presented = vec![
        dns("*.Backend.Internal."),
        PresentedSubjectAltName {
            dns_name: None,
            uri: Some("spiffe://cluster/ns/default/sa/api".to_string()),
        },
    ];
    assert_eq!(
        backend_certificate_matches_subject_alt_names(&presented, &[]),
        Ok(true)
    );
    assert_eq!(
        backend_certificate_matches_subject_alt_names(
            &presented,
            &[san("Hostname", "API.backend.internal")]
        ),
        Ok(true)
    );
    assert_eq!(
        backend_certificate_matches_subject_alt_names(
            &presented,
            &[san("URI", "spiffe://cluster/ns/default/sa/api")]
        ),
        Ok(true)
    );
    assert_eq!(
        backend_certificate_matches_subject_alt_names(&presented, &[san("Hostname", "other.test")]),
        Ok(false)
    );
    assert_eq!(
        backend_certificate_matches_subject_alt_names(&presented, &[san("Hostname", "")]),
        Err("backend TLS subjectAltNames entries must not be empty".to_string())
    );
    assert_eq!(
        backend_certificate_matches_subject_alt_names(&presented, &[san("Hostname", " . ")]),
        Err("backend TLS Hostname subjectAltName entries must not be empty".to_string())
    );
    assert_eq!(
        backend_certificate_matches_subject_alt_names(&presented, &[san("IP", "10.0.0.1")]),
        Err("unsupported backend TLS subjectAltName type: IP".to_string())
    );
}

#[test]
fn validation_plan_checks_policy_shape() {
    let base = BackendTlsValidation {
        hostname: "api.internal".to_string(),
        use_system_ca_certificates: true,
        ..BackendTlsValidation::default()
    };
    let plan = backend_tls_validation_plan(&base, None).expect("plan");
    assert!(plan.use_system_ca_certificates);
    assert!(plan.verify_hostname);
    assert!(!plan.check_subject_alt_names);

    let no_host = BackendTlsValidation::default();
    assert_eq!(
        backend_tls_validation_plan(&no_host, None).unwrap_err(),
        GatewayError::UnsupportedBackendTlsValidation(
            "backend TLS validation hostname must not be empty".to_string()
        )
    );
    let no_bundle = BackendTlsValidation {
        hostname: "h".to_string(),
        ..BackendTlsValidation::default()
    };
    assert!(backend_tls_validation_plan(&no_bundle, None).is_err());
    let bad_bundle = BackendTlsValidation {
        hostname: "h".to_string(),
        ca_pems: vec!["pem".to_string()],
        ..BackendTlsValidation::default()
    };
    assert_eq!(
        backend_tls_validation_plan(&bad_bundle, Some("bad pem".to_string())).unwrap_err(),
        GatewayError::UnsupportedBackendTlsValidation("bad pem".to_string())
    );
    let versions = BackendTlsValidation {
        min_version: "1.2".to_string(),
        subject_alt_names: vec![san("Hostname", "h")],
        ..base
    };
    assert!(backend_tls_validation_plan(&versions, None).is_err());
}

#[test]
fn downstream_tls_info_reads_sni_and_client_certificate() {
    let info = DownstreamTlsInfo {
        server_name: "app.test".to_string(),
        client_certificate_present: true,
    };
    assert_eq!(downstream_tls_server_name(Some(&info)), Some("app.test".to_string()));
    assert!(downstream_tls_client_certificate_present(Some(&info)));
    let empty = DownstreamTlsInfo {
        server_name: String::new(),
        client_certificate_present: false,
    };
    assert_eq!(downstream_tls_server_name(Some(&empty)), None);
    assert_eq!(downstream_tls_server_name(None), None);
    assert!(!downstream_tls_client_certificate_present(None));
}
