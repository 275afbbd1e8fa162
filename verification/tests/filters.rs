use ntgw_http::extensions::{
    build_direct_response, direct_response_filter, extension_filters_supported,
    normalize_status_code,
};
use ntgw_http::filters::{
    build_redirect_response, cors_filter_present, ensure_supported_filters,
    external_auth_filter, request_redirect_filter, response_filters_need_request_headers,
    rewrite_path_and_query, route_filters_have_request_mirror,
};
use ntgw_http::ir::{
    CorsFilter, DirectResponseFilter, ExtensionFilter, ExternalAuthFilter, Filter,
    HeaderModifier, HeaderOperation, MatchedHttpPath, PathModifier, RequestMirrorFilter,
    RequestRedirectFilter,
};
use ntgw_http::response::GatewayError;

#[test]
fn request_redirect_filter_returns_first_redirect() {
    let filters = [
        Filter {
            filter_type: "RequestHeaderModifier".to_string(),
            header_modifier: Some(HeaderModifier::default()),
            ..Filter::default()
        },
        Filter {
            filter_type: "RequestRedirect".to_string(),
            request_redirect: Some(RequestRedirectFilter {
                scheme: "https".to_string(),
                ..RequestRedirectFilter::default()
            }),
            ..Filter::default()
        },
    ];
    let redirect = request_redirect_filter(&filters).expect("redirect");

    assert_eq!(redirect.scheme, "https");
}

#[test]
fn build_redirect_response_preserves_gateway_api_redirect_status_codes() {
    for code in [303_u16, 307, 308] {
        let response =
            build_redirect_response(code, "https://example.com/next").expect("redirect response");
        assert_eq!(response.status, code);
        assert_eq!(
            response.headers.get("location").as_deref(),
            Some("https://example.com/next")
        );
    }
}

#[test]
fn build_redirect_response_rejects_status_codes_outside_the_http_range() {
    assert_eq!(
        build_redirect_response(99, "/x").unwrap_err(),
        GatewayError::InvalidStatusCode(99)
    );
    assert!(build_redirect_response(1000, "/x").is_err());
    assert!(build_redirect_response(100, "/x").is_ok());
}

#[test]
fn ensure_supported_filters_rejects_unknown_types() {
    let result = ensure_supported_filters(&[Filter {
        filter_type: "Custom".to_string(),
        ..Filter::default()
    }]);

    assert!(result.is_err());
}

#[test]
fn ensure_supported_filters_names_the_first_unsupported_filter() {
    let result = ensure_supported_filters(&[
        Filter {
            filter_type: "CORS".to_string(),
            ..Filter::default()
        },
        Filter {
            filter_type: "Custom".to_string(),
            ..Filter::default()
        },
        Filter {
            filter_type: "Other".to_string(),
            ..Filter::default()
        },
    ]);

    assert_eq!(
        result.unwrap_err(),
        GatewayError::UnsupportedFilter("Custom".to_string())
    );
}

#[test]
fn ensure_supported_filters_allows_known_types() {
    let result = ensure_supported_filters(&[
        Filter {
            filter_type: "RequestHeaderModifier".to_string(),
            ..Filter::default()
        },
        Filter {
            filter_type: "RequestRedirect".to_string(),
            ..Filter::default()
        },
        Filter {
            filter_type: "CORS".to_string(),
            ..Filter::default()
        },
        Filter {
            filter_type: "RequestMirror".to_string(),
            ..Filter::default()
        },
        Filter {
            filter_type: "ExternalAuth".to_string(),
            external_auth: Some(ExternalAuthFilter {
                protocol: "HTTP".to_string().into(),
                ..ExternalAuthFilter::default()
            }),
            ..Filter::default()
        },
        Filter {
            filter_type: "ExternalAuth".to_string(),
            external_auth: Some(ExternalAuthFilter {
                protocol: "GRPC".to_string().into(),
                ..ExternalAuthFilter::default()
            }),
            ..Filter::default()
        },
    ]);

    assert!(result.is_ok());
}

#[test]
fn ensure_supported_filters_allows_external_auth_forward_body() {
    let result = ensure_supported_filters(&[Filter {
        filter_type: "ExternalAuth".to_string(),
        external_auth: Some(ExternalAuthFilter {
            protocol: "HTTP".to_string().into(),
            forward_body_max_size: Some(1),
            ..ExternalAuthFilter::default()
        }),
        ..Filter::default()
    }]);

    assert!(result.is_ok());
}

#[test]
fn accepts_resolved_direct_response_extensions() {
    let filters = vec![Filter {
        filter_type: "ExtensionRef".to_string(),
        extension_ref: Some(ExtensionFilter {
            resolved: true,
            extension_type: "DirectResponse".to_string(),
            direct_response: Some(DirectResponseFilter {
                status_code: 503,
                body: "maintenance".to_string(),
                content_type: "text/plain".to_string(),
                headers: vec![HeaderOperation {
                    name: "retry-after".to_string(),
                    value: "60".to_string(),
                }],
            }),
            ..ExtensionFilter::default()
        }),
        ..Filter::default()
    }];

    assert!(extension_filters_supported(&filters));
    assert_eq!(
        direct_response_filter(&filters)
            .expect("direct response")
            .status_code,
        503
    );
}

#[test]
fn rejects_unresolved_extensions() {
    let filters = vec![Filter {
        filter_type: "ExtensionRef".to_string(),
        extension_ref: Some(ExtensionFilter {
            resolved: false,
            message: "missing".to_string(),
            ..ExtensionFilter::default()
        }),
        ..Filter::default()
    }];

    assert!(!extension_filters_supported(&filters));
}

#[test]
fn build_direct_response_sets_headers_and_body_length() {
    let filter = DirectResponseFilter {
        status_code: 503,
        body: "maintenance".to_string(),
        content_type: "text/plain".to_string(),
        headers: vec![HeaderOperation {
            name: "retry-after".to_string(),
            value: "60".to_string(),
        }],
    };
    let (response, body) = build_direct_response(&filter).expect("valid headers");
    assert_eq!(response.status, 503);
    assert_eq!(response.headers.get("retry-after").as_deref(), Some("60"));
    assert_eq!(response.headers.get("content-type").as_deref(), Some("text/plain"));
    assert_eq!(response.headers.get("content-length").as_deref(), Some("11"));
    assert_eq!(body.as_deref(), Some("maintenance"));

    let empty = DirectResponseFilter {
        status_code: 42,
        ..DirectResponseFilter::default()
    };
    let (response, body) = build_direct_response(&empty).expect("valid headers");
    assert_eq!(response.status, 500);
    assert_eq!(response.headers.get("content-length").as_deref(), Some("0"));
    assert!(body.is_none());
}

#[test]
fn build_direct_response_refuses_invalid_headers() {
    let bad_name = DirectResponseFilter {
        status_code: 200,
        headers: vec![
            HeaderOperation {
                name: "x-ok".to_string(),
                value: "1".to_string(),
            },
            HeaderOperation {
                name: "bad name".to_string(),
                value: "1".to_string(),
            },
        ],
        ..DirectResponseFilter::default()
    };
    assert_eq!(
        build_direct_response(&bad_name).err(),
        Some(GatewayError::InvalidHeader("bad name".to_string()))
    );
    let bad_value = DirectResponseFilter {
        status_code: 200,
        headers: vec![HeaderOperation {
            name: "x-line".to_string(),
            value: "a\nb".to_string(),
        }],
        ..DirectResponseFilter::default()
    };
    assert_eq!(
        build_direct_response(&bad_value).err(),
        Some(GatewayError::InvalidHeader("x-line".to_string()))
    );
    let bad_type = DirectResponseFilter {
        status_code: 200,
        body: "x".to_string(),
        content_type: "text/\u{7f}".to_string(),
        ..DirectResponseFilter::default()
    };
    assert_eq!(
        build_direct_response(&bad_type).err(),
        Some(GatewayError::InvalidHeader("content-type".to_string()))
    );
}

#[test]
fn normalize_status_code_keeps_http_codes_and_maps_others_to_500() {
    assert_eq!(normalize_status_code(100), 100);
    assert_eq!(normalize_status_code(599), 599);
    assert_eq!(normalize_status_code(99), 500);
    assert_eq!(normalize_status_code(600), 500);
}

#[test]
fn filter_lookups_find_their_kinds() {
    let filters = vec![
        Filter {
            filter_type: "CORS".to_string(),
            cors: Some(CorsFilter::default()),
            ..Filter::default()
        },
        Filter {
            filter_type: "RequestMirror".to_string(),
            request_mirror: Some(RequestMirrorFilter::default()),
            ..Filter::default()
        },
        Filter {
            filter_type: "ExternalAuth".to_string(),
            external_auth: Some(ExternalAuthFilter {
                protocol: "GRPC".to_string(),
                ..ExternalAuthFilter::default()
            }),
            ..Filter::default()
        },
    ];
    assert!(cors_filter_present(&filters));
    assert!(route_filters_have_request_mirror(&filters));
    assert!(response_filters_need_request_headers(&filters));
    assert_eq!(external_auth_filter(&filters).unwrap().protocol, "GRPC");
    assert!(!cors_filter_present(&filters[1..]));
    assert!(!route_filters_have_request_mirror(&filters[2..]));
    assert!(external_auth_filter(&filters[..2]).is_none());
}

#[test]
fn rewrite_path_and_query_handles_prefix_and_full_path() {
    let full = rewrite_path_and_query(
        "/users/42",
        Some("debug=true"),
        &PathModifier {
            modifier_type: "ReplaceFullPath".to_string(),
            replace_full_path: "/members/42".to_string(),
            ..PathModifier::default()
        },
        None,
    );
    let prefix = rewrite_path_and_query(
        "/users/42",
        Some("debug=true"),
        &PathModifier {
            modifier_type: "ReplacePrefixMatch".to_string(),
            replace_prefix_match: "/api".to_string(),
            ..PathModifier::default()
        },
        Some(&MatchedHttpPath {
            path: "/users".to_string(),
            path_type: "PathPrefix".to_string(),
        }),
    );

    assert_eq!(full, "/members/42?debug=true");
    assert_eq!(prefix, "/api/42?debug=true");
}

#[test]
fn rewrite_path_and_query_joins_slashes_and_keeps_unmatched_paths() {
    let slash = PathModifier {
        modifier_type: "ReplacePrefixMatch".to_string(),
        replace_prefix_match: "/".to_string(),
        ..PathModifier::default()
    };
    let matched = MatchedHttpPath {
        path: "/users".to_string(),
        path_type: "PathPrefix".to_string(),
    };
    assert_eq!(rewrite_path_and_query("/users/42", None, &slash, Some(&matched)), "/42");
    assert_eq!(rewrite_path_and_query("/users", None, &slash, Some(&matched)), "/");
    assert_eq!(rewrite_path_and_query("/other", Some(""), &slash, Some(&matched)), "/other");
    let exact = MatchedHttpPath {
        path: "/users".to_string(),
        path_type: "Exact".to_string(),
    };
    assert_eq!(rewrite_path_and_query("/users", None, &slash, Some(&exact)), "/users");
}
