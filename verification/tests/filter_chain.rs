use ntgw_http::filter_chain::{
    apply_header_modifier, apply_request_filters, apply_response_filters, RequestHead,
};
use ntgw_http::headers::HeaderList;
use ntgw_http::ir::{
    CorsFilter, Filter, HeaderModifier, HeaderOperation, MatchedHttpPath, PathModifier,
    UrlRewriteFilter,
};
use ntgw_http::response::GatewayError;

fn headers(fields: &[(&str, &str)]) -> HeaderList {
    let mut list = HeaderList::new();
    for (name, value) in fields {
        list.append(name, value);
    }
    list
}

fn op(name: &str, value: &str) -> HeaderOperation {
    HeaderOperation {
        name: name.to_string(),
        value: value.to_string(),
    }
}

fn cors_filter(cors: CorsFilter) -> Filter {
    Filter {
        filter_type: "CORS".to_string(),
        cors: Some(cors),
        ..Filter::default()
    }
}

#[test]
fn apply_header_modifier_updates_request_headers() {
    let mut request = headers(&[("x-remove", "gone"), ("x-set", "old")]);
    apply_header_modifier(
        &mut request,
        &HeaderModifier {
            set: vec![op("x-set", "new")],
            add: vec![op("x-add", "blue")],
            remove: vec!["x-remove".to_string()],
        },
    )
    .expect("apply request modifier");
    assert!(request.get("x-remove").is_none());
    assert_eq!(request.get("x-set").as_deref(), Some("new"));
    assert_eq!(request.get("x-add").as_deref(), Some("blue"));
}

#[test]
fn header_modifier_refuses_invalid_fields_and_leaves_headers() {
    let mut request = headers(&[("x-keep", "1")]);
    let result = apply_header_modifier(
        &mut request,
        &HeaderModifier {
            set: vec![op("x-ok", "1")],
            add: vec![op("bad name", "v")],
            remove: vec!["x-keep".to_string()],
        },
    );
    assert_eq!(result, Err(GatewayError::InvalidHeader("bad name".to_string())));
    assert_eq!(request.get("x-keep").as_deref(), Some("1"));
    assert!(request.get("x-ok").is_none());
}

#[test]
fn apply_request_filters_rewrites_path_and_host_in_order() {
    let mut request = RequestHead {
        path: "/users".to_string(),
        query: Some("id=1".to_string()),
        headers: headers(&[("host", "api.example.com")]),
    };
    apply_request_filters(
        &mut request,
        &[
            Filter {
                filter_type: "RequestHeaderModifier".to_string(),
                header_modifier: Some(HeaderModifier {
                    set: vec![op("host", "pre.example.com")],
                    ..HeaderModifier::default()
                }),
                ..Filter::default()
            },
            Filter {
                filter_type: "URLRewrite".to_string(),
                url_rewrite: Some(UrlRewriteFilter {
                    hostname: "backend.internal".to_string(),
                    path: Some(PathModifier {
                        modifier_type: "ReplacePrefixMatch".to_string(),
                        replace_prefix_match: "/api".to_string(),
                        ..PathModifier::default()
                    }),
                }),
                ..Filter::default()
            },
        ],
        Some(&MatchedHttpPath {
            path: "/users".to_string(),
            path_type: "PathPrefix".to_string(),
        }),
    )
    .expect("apply request filters");
    assert_eq!(request.headers.get("host").as_deref(), Some("backend.internal"));
    assert_eq!(request.path, "/api");
    assert_eq!(request.query.as_deref(), Some("id=1"));
}

#[test]
fn property_request_filter_chain_preserves_expected_header_transformations() {
    let cases = [
        ("a", "b", "one.example", "/v1"),
        ("value with spaces", "x-y-z", "two.internal", "/"),
        ("42", "", "h", "/deep/prefix"),
    ];
    for (set_value, add_value, rewrite_host, rewrite_prefix) in cases {
        let mut request = RequestHead {
            path: "/users".to_string(),
            query: Some("id=42".to_string()),
            headers: headers(&[("host", "before.example.com"), ("x-remove", "gone")]),
        };
        apply_request_filters(
            &mut request,
            &[
                Filter {
                    filter_type: "RequestHeaderModifier".to_string(),
                    header_modifier: Some(HeaderModifier {
                        set: vec![op("x-set", set_value)],
                        add: vec![op("x-add", add_value)],
                        remove: vec!["x-remove".to_string()],
                    }),
                    ..Filter::default()
                },
                Filter {
                    filter_type: "URLRewrite".to_string(),
                    url_rewrite: Some(UrlRewriteFilter {
                        hostname: rewrite_host.to_string(),
                        path: Some(PathModifier {
                            modifier_type: "ReplacePrefixMatch".to_string(),
                            replace_prefix_match: rewrite_prefix.to_string(),
                            ..PathModifier::default()
                        }),
                    }),
                    ..Filter::default()
                },
            ],
            Some(&MatchedHttpPath {
                path: "/users".to_string(),
                path_type: "PathPrefix".to_string(),
            }),
        )
        .expect("apply request filters");
        assert!(request.headers.get("x-remove").is_none());
        assert_eq!(request.headers.get("x-set").as_deref(), Some(set_value));
        assert_eq!(request.headers.get("x-add").as_deref(), Some(add_value));
        assert_eq!(request.headers.get("host").as_deref(), Some(rewrite_host));
        assert_eq!(request.path, rewrite_prefix);
        assert_eq!(request.query.as_deref(), Some("id=42"));
    }
}

#[test]
fn apply_response_filters_only_uses_response_header_modifiers() {
    let mut response = HeaderList::new();
    apply_response_filters(
        &mut response,
        &[
            Filter {
                filter_type: "RequestHeaderModifier".to_string(),
                header_modifier: Some(HeaderModifier {
                    set: vec![op("x-ignore", "no")],
                    ..HeaderModifier::default()
                }),
                ..Filter::default()
            },
            Filter {
                filter_type: "ResponseHeaderModifier".to_string(),
                header_modifier: Some(HeaderModifier {
                    set: vec![op("x-response", "ok")],
                    ..HeaderModifier::default()
                }),
                ..Filter::default()
            },
        ],
        None,
        None,
    )
    .expect("apply response filters");
    assert!(response.get("x-ignore").is_none());
    assert_eq!(response.get("x-response").as_deref(), Some("ok"));
}

#[test]
fn apply_response_filters_skips_cors_headers_for_non_matching_origin() {
    let mut response = HeaderList::new();
    let request_headers = headers(&[("origin", "https://other.example")]);
    apply_response_filters(
        &mut response,
        &[cors_filter(CorsFilter {
            allow_origins: vec!["https://app.example".to_string()],
            allow_credentials: true,
            ..CorsFilter::default()
        })],
        Some("GET"),
        Some(&request_headers),
    )
    .expect("apply cors filters");
    assert!(response.get("access-control-allow-origin").is_none());
    assert!(response.get("access-control-allow-credentials").is_none());
}

#[test]
fn apply_response_filters_adds_cors_headers_for_matching_origin() {
    let mut response = HeaderList::new();
    let request_headers = headers(&[("origin", "https://app.example")]);
    apply_response_filters(
        &mut response,
        &[cors_filter(CorsFilter {
            allow_origins: vec!["https://app.example".to_string()],
            allow_credentials: true,
            expose_headers: vec!["x-trace-id".to_string()],
            ..CorsFilter::default()
        })],
        Some("GET"),
        Some(&request_headers),
    )
    .expect("apply cors filters");
    assert_eq!(
        response.get("access-control-allow-origin").as_deref(),
        Some("https://app.example")
    );
    assert_eq!(response.get("access-control-allow-credentials").as_deref(), Some("true"));
    assert_eq!(response.get("access-control-expose-headers").as_deref(), Some("x-trace-id"));
}

#[test]
fn apply_response_filters_adds_preflight_cors_headers() {
    let mut response = HeaderList::new();
    let request_headers = headers(&[
        ("origin", "https://app.example"),
        ("access-control-request-method", "POST"),
    ]);
    apply_response_filters(
        &mut response,
        &[cors_filter(CorsFilter {
            allow_origins: vec!["https://app.example".to_string()],
            allow_methods: vec!["GET".to_string(), "POST".to_string()],
            allow_headers: vec!["authorization".to_string(), "content-type".to_string()],
            max_age: Some(600),
            ..CorsFilter::default()
        })],
        Some("OPTIONS"),
        Some(&request_headers),
    )
    .expect("apply cors preflight filters");
    assert_eq!(response.get("access-control-allow-methods").as_deref(), Some("GET, POST"));
    assert_eq!(
        response.get("access-control-allow-headers").as_deref(),
        Some("authorization, content-type")
    );
    assert_eq!(response.get("access-control-max-age").as_deref(), Some("600"));
}

#[test]
fn apply_response_filters_matches_gateway_api_origin_wildcards() {
    let mut response = HeaderList::new();
    let request_headers = headers(&[("origin", "https://xpto.www.bar.com")]);
    apply_response_filters(
        &mut response,
        &[cors_filter(CorsFilter {
            allow_origins: vec!["https://*.bar.com".to_string()],
            allow_credentials: true,
            ..CorsFilter::default()
        })],
        Some("GET"),
        Some(&request_headers),
    )
    .expect("apply cors filters");
    assert_eq!(
        response.get("access-control-allow-origin").as_deref(),
        Some("https://xpto.www.bar.com")
    );
}

#[test]
fn apply_response_filters_echoes_wildcard_origin_when_credentials_are_allowed() {
    let mut response = HeaderList::new();
    let request_headers = headers(&[("origin", "https://other.foo.com")]);
    apply_response_filters(
        &mut response,
        &[cors_filter(CorsFilter {
            allow_origins: vec!["*".to_string()],
            allow_credentials: true,
            ..CorsFilter::default()
        })],
        Some("GET"),
        Some(&request_headers),
    )
    .expect("apply cors filters");
    assert_eq!(
        response.get("access-control-allow-origin").as_deref(),
        Some("https://other.foo.com")
    );
    assert_eq!(response.get("access-control-allow-credentials").as_deref(), Some("true"));
}

#[test]
fn apply_response_filters_echoes_wildcard_origin_for_cookie_requests_without_credentials_header() {
    let mut response = HeaderList::new();
    let request_headers = headers(&[("origin", "https://other.foo.com"), ("cookie", "session=1")]);
    apply_response_filters(
        &mut response,
        &[cors_filter(CorsFilter {
            allow_origins: vec!["*".to_string()],
            allow_credentials: false,
            ..CorsFilter::default()
        })],
        Some("GET"),
        Some(&request_headers),
    )
    .expect("apply cors filters");
    assert_eq!(
        response.get("access-control-allow-origin").as_deref(),
        Some("https://other.foo.com")
    );
    assert!(response.get("access-control-allow-credentials").is_none());
}

#[test]
fn apply_response_filters_echoes_wildcard_methods_and_headers_when_credentials_are_allowed() {
    let mut response = HeaderList::new();
    let request_headers = headers(&[
        ("origin", "https://other.foo.com"),
        ("access-control-request-method", "PUT"),
        ("access-control-request-headers", "x-header-1, x-header-2"),
    ]);
    apply_response_filters(
        &mut response,
        &[cors_filter(CorsFilter {
            allow_origins: vec!["*".to_string()],
            allow_methods: vec!["*".to_string()],
            allow_headers: vec!["*".to_string()],
            allow_credentials: true,
            ..CorsFilter::default()
        })],
        Some("OPTIONS"),
        Some(&request_headers),
    )
    .expect("apply cors filters");
    assert_eq!(
        response.get("access-control-allow-origin").as_deref(),
        Some("https://other.foo.com")
    );
    assert_eq!(response.get("access-control-allow-methods").as_deref(), Some("PUT"));
    assert_eq!(
        response.get("access-control-allow-headers").as_deref(),
        Some("x-header-1, x-header-2")
    );
}
