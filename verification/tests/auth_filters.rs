use base64::Engine;
use ntgw_http::basic_auth::{
    basic_auth_allows, basic_auth_challenge, basic_auth_realm, basic_credentials,
    htpasswd_accepts,
};
use ntgw_http::ip_filter::{
    cidr_contains, client_ip_text, forbidden_response, ip_filter_allows, listed, CidrRange,
    IpFilterConfig, IpValue,
};

fn basic(user_password: &str) -> String {
    format!(
        "Basic {}",
        base64::engine::general_purpose::STANDARD.encode(user_password)
    )
}

#[test]
fn basic_credentials_split_at_the_first_colon() {
    assert_eq!(
        basic_credentials(Some(&basic("alice:pa:ss"))),
        Some(("alice".to_string(), "pa:ss".to_string()))
    );
    assert_eq!(basic_credentials(Some(&basic("nocolon"))), None);
    assert_eq!(basic_credentials(Some("Bearer abc")), None);
    assert_eq!(basic_credentials(Some("Basic !!!")), None);
    assert_eq!(basic_credentials(None), None);
}

#[test]
fn htpasswd_checks_bcrypt_hashes_and_skips_comments() {
    let hash = bcrypt::hash("s3cret", 4).expect("hash");
    let htpasswd = format!("# users\n\nbob:{}\nalice:{}\n", "not-a-hash", hash);
    assert!(htpasswd_accepts(&htpasswd, "alice", "s3cret"));
    assert!(!htpasswd_accepts(&htpasswd, "alice", "wrong"));
    assert!(!htpasswd_accepts(&htpasswd, "bob", "s3cret"));
    assert!(!htpasswd_accepts(&htpasswd, "carol", "s3cret"));

    assert!(basic_auth_allows(Some(&basic("alice:s3cret")), &htpasswd));
    assert!(!basic_auth_allows(Some(&basic("alice:nope")), &htpasswd));
    assert!(!basic_auth_allows(Some(&basic("alice:s3cret")), ""));
    assert!(!basic_auth_allows(None, &htpasswd));
}

#[test]
fn basic_auth_challenge_names_the_realm() {
    assert_eq!(basic_auth_realm(""), "Restricted");
    let response = basic_auth_challenge("");
    assert_eq!(response.status, 401);
    assert_eq!(
        response.headers.get("www-authenticate").as_deref(),
        Some("Basic realm=\"Restricted\"")
    );
    assert_eq!(response.headers.get("content-length").as_deref(), Some("0"));
    let named = basic_auth_challenge("admin");
    assert_eq!(
        named.headers.get("www-authenticate").as_deref(),
        Some("Basic realm=\"admin\"")
    );
}

fn v4(a: u8, b: u8, c: u8, d: u8) -> IpValue {
    IpValue {
        v6: false,
        bits: u32::from_be_bytes([a, b, c, d]) as u128,
    }
}

#[test]
fn cidr_lists_match_by_family_and_range() {
    let allow = vec!["10.0.0.0/8".to_string(), "garbage".to_string()];
    assert!(listed(&allow, &v4(10, 1, 2, 3)));
    assert!(!listed(&allow, &v4(11, 0, 0, 1)));
    let v6 = IpValue { v6: true, bits: 1 };
    assert!(!listed(&allow, &v6));
    assert!(listed(&["::/0".to_string()], &v6));
    let range = CidrRange {
        v6: false,
        network: 10,
        broadcast: 20,
    };
    assert!(cidr_contains(&range, &IpValue { v6: false, bits: 15 }));
    assert!(!cidr_contains(&range, &IpValue { v6: true, bits: 15 }));
}

#[test]
fn ip_filter_allow_list_takes_precedence() {
    let open = IpFilterConfig::default();
    assert!(ip_filter_allows(&open, None));
    let config = IpFilterConfig {
        allow_cidrs: vec!["10.0.0.0/8".to_string()],
        deny_cidrs: vec!["10.9.0.0/16".to_string()],
    };
    assert!(ip_filter_allows(&config, Some(v4(10, 1, 1, 1))));
    assert!(ip_filter_allows(&config, Some(v4(10, 9, 1, 1))));
    assert!(!ip_filter_allows(&config, Some(v4(192, 168, 0, 1))));
    assert!(!ip_filter_allows(&config, None));
    let deny_only = IpFilterConfig {
        allow_cidrs: vec![],
        deny_cidrs: vec!["192.168.0.0/24".to_string()],
    };
    assert!(ip_filter_allows(&deny_only, Some(v4(10, 0, 0, 1))));
    assert!(!ip_filter_allows(&deny_only, Some(v4(192, 168, 0, 7))));
}

#[test]
fn client_ip_text_drops_the_port() {
    assert_eq!(client_ip_text("10.0.0.1:8080"), "10.0.0.1");
    assert_eq!(client_ip_text("10.0.0.1"), "10.0.0.1");
    assert_eq!(client_ip_text("[::1]:443"), "[::1]");
}

#[test]
fn forbidden_response_is_plain_text() {
    let (head, body) = forbidden_response("IP not allowed");
    assert_eq!(head.status, 403);
    assert_eq!(body, "IP not allowed");
    assert_eq!(head.headers.get("content-type").as_deref(), Some("text/plain"));
    assert_eq!(head.headers.get("content-length").as_deref(), Some("14"));
}
