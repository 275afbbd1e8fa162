use ntgw_http::oidc::{
    authorization_url, callback_redirect_target, create_session_cookie, effective_cookie_name,
    exp_or_default, extract_cookie, extract_query_param, hash_token, jwt_payload_segment,
    oidc_action, oidc_callback_response, oidc_error_response, oidc_original_url, oidc_scopes,
    session_is_current, signed_session_payload, url_decode, url_encode, OidcAction,
    OidcAuthConfig, oidc_callback_code, oidc_callback_outcome, new_session_payload, session_accepted, OidcSessionPayload,
};

#[test]
fn url_encode_keeps_unreserved_and_escapes_the_rest() {
    assert_eq!(url_encode("abc-_.~XYZ09"), "abc-_.~XYZ09");
    assert_eq!(url_encode("a b/c?d=e&f"), "a%20b%2Fc%3Fd%3De%26f");
    assert_eq!(url_encode("é"), "%C3%A9");
    assert_eq!(url_encode(""), "");
}

#[test]
fn url_decode_reads_escapes_plus_and_broken_escapes() {
    assert_eq!(url_decode("a%20b+c"), "a b c");
    assert_eq!(url_decode("%2f%2F"), "//");
    assert_eq!(url_decode("100%"), "100%");
    assert_eq!(url_decode("%zz1"), "%zz1");
    assert_eq!(url_decode("%4"), "\u{4}");
    assert_eq!(url_decode("%+A"), "\n");
    assert_eq!(url_decode("%C3%A9"), "\u{c3}\u{a9}");
}

#[test]
fn url_decode_undoes_url_encode_for_ascii() {
    for text in ["plain", "a b+c", "https://x.test/p?q=1&r=%", "~!*'()"] {
        assert_eq!(url_decode(&url_encode(text)), text);
    }
}

#[test]
fn extract_query_param_takes_the_first_match_decoded() {
    let query = "state=https%3A%2F%2Fapp%2Fx&code=abc+def&code=second";
    assert_eq!(extract_query_param(query, "code"), Some("abc def".to_string()));
    assert_eq!(
        extract_query_param(query, "state"),
        Some("https://app/x".to_string())
    );
    assert_eq!(extract_query_param(query, "missing"), None);
    assert_eq!(extract_query_param("flag&code=1", "flag"), None);
    assert_eq!(extract_query_param("", "code"), None);
}

#[test]
fn extract_cookie_searches_cookie_headers_in_order() {
    let headers = vec![
        Some("a=1; _ntgw_oidc_session=tok.sig ; b=2".to_string()),
        Some("_ntgw_oidc_session=later".to_string()),
    ];
    assert_eq!(
        extract_cookie(&headers, "_ntgw_oidc_session"),
        Some("tok.sig".to_string())
    );
    assert_eq!(extract_cookie(&headers, "b"), Some("2".to_string()));
    assert_eq!(extract_cookie(&headers, "missing"), None);
    let broken_first = vec![None, Some("b=2".to_string())];
    assert_eq!(extract_cookie(&broken_first, "b"), None);
}

#[test]
fn cookie_name_defaults_when_unset() {
    assert_eq!(effective_cookie_name(""), "_ntgw_oidc_session");
    assert_eq!(effective_cookie_name("sid"), "sid");
}

#[test]
fn authorization_url_carries_client_scopes_callback_and_state() {
    let config = OidcAuthConfig {
        provider_authorization_url: "https://idp.test/auth".to_string(),
        client_id: "client 1".to_string(),
        redirect_url: "https://app.test/cb".to_string(),
        ..OidcAuthConfig::default()
    };
    let original = oidc_original_url(true, Some("app.test"), "/p?x=1");
    assert_eq!(original, "https://app.test/p?x=1");
    assert_eq!(
        authorization_url(&config, &original),
        "https://idp.test/auth?client_id=client%201&response_type=code&scope=openid&redirect_uri=https%3A%2F%2Fapp.test%2Fcb&state=https%3A%2F%2Fapp.test%2Fp%3Fx%3D1"
    );
    assert_eq!(oidc_original_url(false, None, "/"), "http://localhost/");
    assert_eq!(
        oidc_scopes(&["openid".to_string(), "email".to_string()]),
        "openid email"
    );
}

#[test]
fn oidc_action_routes_callback_session_and_login() {
    assert_eq!(oidc_action("/cb", "/cb", false), OidcAction::Callback);
    assert_eq!(oidc_action("/app", "/cb", true), OidcAction::Continue);
    assert_eq!(oidc_action("/app", "/cb", false), OidcAction::Authorize);
}

#[test]
fn callback_response_sets_the_session_cookie() {
    assert_eq!(
        callback_redirect_target("code=1&state=%2Fhome", "https://app/cb"),
        "/home"
    );
    assert_eq!(callback_redirect_target("code=1", "https://app/cb"), "https://app/cb");
    let response = oidc_callback_response("/home", "sid", "v.s");
    assert_eq!(response.status, 302);
    assert_eq!(response.headers.get("location").as_deref(), Some("/home"));
    assert_eq!(
        response.headers.get("set-cookie").as_deref(),
        Some("sid=v.s; Path=/; HttpOnly; SameSite=Lax")
    );
    assert_eq!(response.headers.get("content-length").as_deref(), Some("0"));
}

#[test]
fn error_response_is_plain_text() {
    let (head, body) = oidc_error_response(400, "missing authorization code");
    assert_eq!(head.status, 400);
    assert_eq!(body, "OIDC error: missing authorization code");
    assert_eq!(head.headers.get("content-type").as_deref(), Some("text/plain"));
    assert_eq!(head.headers.get("content-length").as_deref(), Some("38"));
}

#[test]
fn session_cookie_round_trips_under_its_key() {
    let payload = br#"{"sub":"u","exp":5,"access_token_hash":"h"}"#;
    let cookie = create_session_cookie(payload, "secret-key").expect("cookie");
    assert!(cookie.contains('.'));
    assert_eq!(
        signed_session_payload(&cookie, "secret-key"),
        Some(payload.to_vec())
    );
    assert_eq!(signed_session_payload(&cookie, "other-key"), None);
    assert_eq!(signed_session_payload("no-dot", "secret-key"), None);
    assert_eq!(
        create_session_cookie(payload, ""),
        Err("session signing key not found".to_string())
    );
}

#[test]
fn hash_token_is_base64url_sha256() {
    assert_eq!(
        hash_token("abc"),
        "ungWv48Bz-pBQUDeXa4iI7ADYaOWF3qctBD_YfIAFa0"
    );
}

#[test]
fn jwt_payload_segment_decodes_the_second_part() {
    assert_eq!(
        jwt_payload_segment("h.eyJzdWIiOiJ1IiwiZXhwIjo1fQ.s"),
        Ok(br#"{"sub":"u","exp":5}"#.to_vec())
    );
    assert_eq!(
        jwt_payload_segment("nodots"),
        Err("invalid JWT format".to_string())
    );
    assert!(jwt_payload_segment("a.!!.c")
        .unwrap_err()
        .starts_with("failed to decode JWT payload: "));
}

#[test]
fn session_expiry_and_default_exp() {
    assert!(session_is_current(10, 9));
    assert!(!session_is_current(10, 10));
    assert_eq!(exp_or_default(Some(7), Some(100)), 7);
    assert_eq!(exp_or_default(None, Some(100)), 3700);
    assert_eq!(exp_or_default(None, None), 0);
}

#[test]
fn session_payloads_are_accepted_until_they_expire() {
    let payload = new_session_payload("alice", 100, "token");
    assert_eq!(payload.sub, "alice");
    assert_eq!(payload.exp, 100);
    assert_eq!(payload.access_token_hash, hash_token("token"));
    assert!(session_accepted(&Some(payload.clone()), 99));
    assert!(!session_accepted(&Some(payload), 100));
    assert!(!session_accepted(&None::<OidcSessionPayload>, 0));
}

#[test]
fn oidc_callback_ladder() {
    match oidc_callback_code("state=%2Fhome") {
        Err((response, body)) => {
            assert_eq!(response.status, 400);
            assert_eq!(body, "OIDC error: missing authorization code");
        }
        Ok(code) => panic!("unexpected code {code}"),
    }
    assert_eq!(oidc_callback_code("code=abc&state=x").ok().as_deref(), Some("abc"));

    let (failed, body) = oidc_callback_outcome("code=abc", "/", "sess", false, Ok("c".to_string()));
    assert_eq!((failed.status, body.as_str()), (500, "OIDC error: token exchange failed"));
    let (no_cookie, body) =
        oidc_callback_outcome("code=abc", "/", "sess", true, Err("no key".to_string()));
    assert_eq!((no_cookie.status, body.as_str()), (500, "OIDC error: session creation failed"));
    let (done, body) =
        oidc_callback_outcome("code=abc&state=%2Fhome", "/", "sess", true, Ok("c".to_string()));
    assert_eq!(done.status, 302);
    assert!(body.is_empty());
    assert_eq!(done.headers.get("location").as_deref(), Some("/home"));
    assert_eq!(
        done.headers.get("set-cookie").as_deref(),
        Some("sess=c; Path=/; HttpOnly; SameSite=Lax")
    );
    let (fallback, _) = oidc_callback_outcome("code=abc", "/app", "sess", true, Ok("c".to_string()));
    assert_eq!(fallback.headers.get("location").as_deref(), Some("/app"));
}

#[test]
fn url_round_trip_and_escapes() {
    let text = "state=/home?x=1&y=two words~";
    let encoded = url_encode(text);
    assert!(encoded
        .chars()
        .all(|c| c.is_ascii_alphanumeric() || "-_.~%".contains(c)));
    assert_eq!(url_decode(&encoded), text);
    assert_eq!(url_decode("a+b%zz"), "a b%zz");
}
