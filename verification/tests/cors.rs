use ntgw_http::cors::{apply_cors_filter, is_cors_preflight_request, origin_matches};
use ntgw_http::headers::HeaderList;
use ntgw_http::ir::CorsFilter;

fn headers(fields: &[(&str, &str)]) -> HeaderList {
    let mut list = HeaderList::new();
    for (name, value) in fields {
        list.append(name, value);
    }
    list
}

#[test]
fn apply_cors_filter_adds_cors_headers_for_matching_origin() {
    let mut response = HeaderList::new();
    let request = headers(&[("origin", "https://app.example")]);
    let cors = CorsFilter {
        allow_origins: vec!["https://app.example".to_string()],
        allow_credentials: true,
        expose_headers: vec!["x-trace-id".to_string()],
        ..CorsFilter::default()
    };
    apply_cors_filter(&mut response, &cors, Some("GET"), Some(&request));
    assert_eq!(
        response.get("access-control-allow-origin").as_deref(),
        Some("https://app.example")
    );
    assert_eq!(
        response.get("access-control-allow-credentials").as_deref(),
        Some("true")
    );
    assert_eq!(
        response.get("access-control-expose-headers").as_deref(),
        Some("x-trace-id")
    );
}

#[test]
fn apply_cors_filter_skips_cors_headers_for_non_matching_origin() {
    let mut response = HeaderList::new();
    let request = headers(&[("origin", "https://other.example")]);
    let cors = CorsFilter {
        allow_origins: vec!["https://app.example".to_string()],
        allow_credentials: true,
        ..CorsFilter::default()
    };
    apply_cors_filter(&mut response, &cors, Some("GET"), Some(&request));
    assert!(response.get("access-control-allow-origin").is_none());
    assert!(response.get("access-control-allow-credentials").is_none());
}

#[test]
fn apply_cors_filter_adds_preflight_cors_headers() {
    let mut response = HeaderList::new();
    let request = headers(&[
        ("origin", "https://app.example"),
        ("access-control-request-method", "POST"),
    ]);
    let cors = CorsFilter {
        allow_origins: vec!["https://app.example".to_string()],
        allow_methods: vec!["GET".to_string(), "POST".to_string()],
        allow_headers: vec!["authorization".to_string(), "content-type".to_string()],
        max_age: Some(600),
        ..CorsFilter::default()
    };
    apply_cors_filter(&mut response, &cors, Some("OPTIONS"), Some(&request));
    assert_eq!(
        response.get("access-control-allow-methods").as_deref(),
        Some("GET, POST")
    );
    assert_eq!(
        response.get("access-control-allow-headers").as_deref(),
        Some("authorization, content-type")
    );
    assert_eq!(response.get("access-control-max-age").as_deref(), Some("600"));
}

#[test]
fn apply_cors_filter_matches_gateway_api_origin_wildcards() {
    let mut response = HeaderList::new();
    let request = headers(&[("origin", "https://xpto.www.bar.com")]);
    let cors = CorsFilter {
        allow_origins: vec!["https://*.bar.com".to_string()],
        allow_credentials: true,
        ..CorsFilter::default()
    };
    apply_cors_filter(&mut response, &cors, Some("GET"), Some(&request));
    assert_eq!(
        response.get("access-control-allow-origin").as_deref(),
        Some("https://xpto.www.bar.com")
    );
}

#[test]
fn apply_cors_filter_echoes_wildcard_origin_when_credentials_are_allowed() {
    let mut response = HeaderList::new();
    let request = headers(&[("origin", "https://other.foo.com")]);
    let cors = CorsFilter {
        allow_origins: vec!["*".to_string()],
        allow_credentials: true,
        ..CorsFilter::default()
    };
    apply_cors_filter(&mut response, &cors, Some("GET"), Some(&request));
    assert_eq!(
        response.get("access-control-allow-origin").as_deref(),
        Some("https://other.foo.com")
    );
    assert_eq!(
        response.get("access-control-allow-credentials").as_deref(),
        Some("true")
    );
}

#[test]
fn apply_cors_filter_echoes_wildcard_origin_for_cookie_requests_without_credentials_header() {
    let mut response = HeaderList::new();
    let request = headers(&[("origin", "https://other.foo.com"), ("cookie", "session=1")]);
    let cors = CorsFilter {
        allow_origins: vec!["*".to_string()],
        allow_credentials: false,
        ..CorsFilter::default()
    };
    apply_cors_filter(&mut response, &cors, Some("GET"), Some(&request));
    assert_eq!(
        response.get("access-control-allow-origin").as_deref(),
        Some("https://other.foo.com")
    );
    assert!(response.get("access-control-allow-credentials").is_none());
}

#[test]
fn apply_cors_filter_echoes_wildcard_methods_and_headers_when_credentials_are_allowed() {
    let mut response = HeaderList::new();
    let request = headers(&[
        ("origin", "https://other.foo.com"),
        ("access-control-request-method", "PUT"),
        ("access-control-request-headers", "x-header-1, x-header-2"),
    ]);
    let cors = CorsFilter {
        allow_origins: vec!["*".to_string()],
        allow_methods: vec!["*".to_string()],
        allow_headers: vec!["*".to_string()],
        allow_credentials: true,
        ..CorsFilter::default()
    };
    apply_cors_filter(&mut response, &cors, Some("OPTIONS"), Some(&request));
    assert_eq!(
        response.get("access-control-allow-origin").as_deref(),
        Some("https://other.foo.com")
    );
    assert_eq!(
        response.get("access-control-allow-methods").as_deref(),
        Some("PUT")
    );
    assert_eq!(
        response.get("access-control-allow-headers").as_deref(),
        Some("x-header-1, x-header-2")
    );
}

#[test]
fn apply_cors_filter_leaves_responses_without_origin_alone() {
    let mut response = HeaderList::new();
    response.append("x-existing", "1");
    let request = headers(&[("accept", "*/*")]);
    let cors = CorsFilter {
        allow_origins: vec!["*".to_string()],
        ..CorsFilter::default()
    };
    apply_cors_filter(&mut response, &cors, Some("GET"), Some(&request));
    assert_eq!(response.len(), 1);
    apply_cors_filter(&mut response, &cors, Some("GET"), None);
    assert_eq!(response.len(), 1);
}

#[test]
fn preflight_requires_options_origin_and_requested_method() {
    let preflight = headers(&[
        ("origin", "https://app.example"),
        ("access-control-request-method", "POST"),
    ]);
    assert!(is_cors_preflight_request(Some("OPTIONS"), &preflight));
    assert!(!is_cors_preflight_request(Some("GET"), &preflight));
    assert!(!is_cors_preflight_request(
        Some("OPTIONS"),
        &headers(&[("origin", "https://app.example")])
    ));
}

#[test]
fn origin_matching_is_exact_or_wildcard() {
    assert!(origin_matches("https://app.example", "https://app.example"));
    assert!(origin_matches("https://*.example", "https://a.example"));
    assert!(!origin_matches("https://*.example", "https://example"));
    assert!(!origin_matches("https://app.example", "http://app.example"));
    assert!(origin_matches("HTTPS://APP.example", "https://app.example"));
    assert!(!origin_matches("*", "https://anything.test"));
}
