//! CORS: which origin a response allows, and the CORS response headers that
//! a policy writes for a request.
use vstd::prelude::*;

use crate::headers::{
    first_value, inserted, nonempty_first_value, without, HeaderList, HeaderSeq,
};
use crate::ir::{strs, CorsFilter};
use crate::text::{
    chars_all_digits, chars_ends_with, chars_eq, chars_eq_ignore_case, chars_range,
    chars_starts_with, decimal, decimal_string, eq_ignore_case, ends_with, find_sub, first_index,
    first_index_of, first_occurrence, has_char, join_strings, last_index, last_index_of,
    lower_chars, lower_seq, lemma_last_index_of_absent, parse_digits_bounded, seq_join, starts_with, str_chars, str_eq,
    all_digits, digits_value, find_char, string_from_chars,
};

verus! {

// ----- specification -----

/// The default port of an origin scheme.
pub open spec fn spec_default_port(scheme: Seq<char>) -> Option<int> {
    if eq_ignore_case(scheme, "http"@) {
        Some(80)
    } else if eq_ignore_case(scheme, "https"@) {
        Some(443)
    } else {
        None
    }
}

/// Host and port of an authority: after the last ':' when that part is a
/// nonempty run of digits and the host before it is nonempty, else the whole
/// authority with `default_port`; no result when the digits exceed a port.
#[verifier::opaque]
pub open spec fn spec_split_host_port(authority: Seq<char>, default_port: int) -> Option<(Seq<char>, int)> {
    match last_index_of(authority, ':') {
        None => Some((authority, default_port)),
        Some(i) => {
            let host = authority.subrange(0, i);
            let port = authority.subrange(i + 1, authority.len() as int);
            if host.len() == 0 || port.len() == 0 || !all_digits(port) {
                Some((authority, default_port))
            } else if digits_value(port) <= 65535 {
                Some((host, digits_value(port) as int))
            } else {
                None
            }
        },
    }
}

/// The host and port of an origin's authority, when it has no path or
/// query, its port is valid and its host is nonempty.
#[verifier::opaque]
pub open spec fn spec_parse_authority(scheme: Seq<char>, authority: Seq<char>) -> Option<(Seq<char>, int)> {
    if authority.len() == 0 || has_char(authority, '/') || has_char(authority, '?') {
        None
    } else {
        match spec_default_port(scheme) {
            None => None,
            Some(d) => match spec_split_host_port(authority, d) {
                None => None,
                Some((host, port)) => if host.len() == 0 {
                    None
                } else {
                    Some((host, port))
                },
            },
        }
    }
}

/// An origin `scheme://authority` with an http(s) scheme, an authority
/// without path or query, and a nonempty host, as (scheme, host, port).
#[verifier::opaque]
pub open spec fn spec_parse_origin(value: Seq<char>) -> Option<(Seq<char>, Seq<char>, int)> {
    match first_occurrence(value, "://"@) {
        None => None,
        Some(i) => {
            let scheme = value.subrange(0, i);
            let authority = value.subrange(i + 3, value.len() as int);
            if !eq_ignore_case(scheme, "http"@) && !eq_ignore_case(scheme, "https"@) {
                None
            } else {
                match spec_parse_authority(scheme, authority) {
                    None => None,
                    Some((host, port)) => Some((scheme, host, port)),
                }
            }
        },
    }
}

/// A host pattern: `*` matches every host, a pattern without `*` matches its
/// own host ignoring ASCII case, and a pattern `prefix*suffix` matches a
/// longer host that starts with `prefix` and ends with `suffix` (ASCII case
/// ignored).
#[verifier::opaque]
pub open spec fn spec_host_pattern_matches(pattern: Seq<char>, host: Seq<char>) -> bool {
    if pattern == "*"@ {
        true
    } else if !has_char(pattern, '*') {
        eq_ignore_case(pattern, host)
    } else {
        let p = lower_seq(pattern);
        let h = lower_seq(host);
        let i = first_index_of(p, '*').unwrap();
        let prefix = p.subrange(0, i);
        let suffix = p.subrange(i + 1, p.len() as int);
        starts_with(h, prefix) && ends_with(h, suffix) && h.len() > prefix.len() + suffix.len()
    }
}

/// An allowed origin matches a request origin when both are equal ignoring
/// ASCII case, or both parse with the same scheme and port and the allowed
/// host pattern matches the origin host.
#[verifier::opaque]
pub open spec fn spec_origin_matches(allowed: Seq<char>, origin: Seq<char>) -> bool {
    eq_ignore_case(allowed, origin) || match (spec_parse_origin(allowed), spec_parse_origin(origin)) {
        (Some(a), Some(o)) => eq_ignore_case(a.0, o.0) && a.2 == o.2 && spec_host_pattern_matches(
            a.1,
            o.1,
        ),
        _ => false,
    }
}

/// The request carries credentials: a nonempty cookie, authorization or
/// proxy-authorization header.
pub open spec fn spec_request_has_credentials(req: HeaderSeq) -> bool {
    nonempty_first_value(req, "cookie"@) is Some || nonempty_first_value(req, "authorization"@) is Some
        || nonempty_first_value(req, "proxy-authorization"@) is Some
}

/// The value of `access-control-allow-origin` for `origin`, if the policy
/// allows it.
pub open spec fn spec_cors_allow_origin(cors: CorsFilter, origin: Seq<char>, req: HeaderSeq) -> Option<
    Seq<char>,
> {
    let allowed = strs(cors.allow_origins@);
    if allowed.contains("*"@) {
        if cors.allow_credentials || spec_request_has_credentials(req) {
            Some(origin)
        } else {
            Some("*"@)
        }
    } else if exists|i: int| 0 <= i < allowed.len() && spec_origin_matches(allowed[i], origin) {
        Some(origin)
    } else {
        None
    }
}

/// The value of an `access-control-allow-{methods,headers}` header: none for
/// an empty list; with credentials and a `*` entry, the request's own
/// nonempty `request_header`; else the list joined by ", ".
pub open spec fn spec_cors_allow_list(
    list: Seq<Seq<char>>,
    allow_credentials: bool,
    req: HeaderSeq,
    request_header: Seq<char>,
) -> Option<Seq<char>> {
    if list.len() == 0 {
        None
    } else if allow_credentials && list.contains("*"@) {
        nonempty_first_value(req, request_header)
    } else {
        Some(seq_join(list, ", "@))
    }
}

/// A CORS preflight: an OPTIONS request (ASCII case ignored) with a nonempty
/// `access-control-request-method` header.
pub open spec fn spec_is_cors_preflight(method: Option<Seq<char>>, req: HeaderSeq) -> bool {
    (method matches Some(m) && eq_ignore_case(m, "OPTIONS"@)) && nonempty_first_value(
        req,
        "access-control-request-method"@,
    ) is Some
}

/// Sets `name` to `value` when there is one, else removes it.
pub open spec fn set_or_remove(h: HeaderSeq, name: Seq<char>, value: Option<Seq<char>>) -> HeaderSeq {
    match value {
        Some(v) => inserted(h, name, v),
        None => without(h, name),
    }
}

/// The response headers after a CORS policy is applied for an allowed origin.
pub open spec fn spec_cors_headers(
    resp: HeaderSeq,
    cors: CorsFilter,
    method: Option<Seq<char>>,
    req: HeaderSeq,
    allow_origin: Seq<char>,
) -> HeaderSeq {
    let r1 = inserted(resp, "access-control-allow-origin"@, allow_origin);
    let r2 = if allow_origin != "*"@ {
        r1.push(("vary"@, "Origin"@))
    } else {
        r1
    };
    let r3 = if cors.allow_credentials {
        inserted(r2, "access-control-allow-credentials"@, "true"@)
    } else {
        without(r2, "access-control-allow-credentials"@)
    };
    let r4 = if strs(cors.expose_headers@).len() != 0 {
        inserted(r3, "access-control-expose-headers"@, seq_join(strs(cors.expose_headers@), ", "@))
    } else {
        without(r3, "access-control-expose-headers"@)
    };
    if spec_is_cors_preflight(method, req) {
        let r5 = set_or_remove(
            r4,
            "access-control-allow-methods"@,
            spec_cors_allow_list(
                strs(cors.allow_methods@),
                cors.allow_credentials,
                req,
                "access-control-request-method"@,
            ),
        );
        let r6 = set_or_remove(
            r5,
            "access-control-allow-headers"@,
            spec_cors_allow_list(
                strs(cors.allow_headers@),
                cors.allow_credentials,
                req,
                "access-control-request-headers"@,
            ),
        );
        set_or_remove(
            r6,
            "access-control-max-age"@,
            match cors.max_age {
                Some(a) => Some(decimal(a as nat)),
                None => None,
            },
        )
    } else {
        without(
            without(
                without(r4, "access-control-allow-methods"@),
                "access-control-allow-headers"@,
            ),
            "access-control-max-age"@,
        )
    }
}

/// The response headers after `apply_cors_filter`.
pub open spec fn spec_apply_cors(
    resp: HeaderSeq,
    cors: CorsFilter,
    method: Option<Seq<char>>,
    req: Option<HeaderSeq>,
) -> HeaderSeq {
    match req {
        None => resp,
        Some(req) => match first_value(req, "origin"@) {
            None => resp,
            Some(origin) => match spec_cors_allow_origin(cors, origin, req) {
                None => resp,
                Some(allow_origin) => spec_cors_headers(resp, cors, method, req, allow_origin),
            },
        },
    }
}

// ----- implementation -----

/// Applies a CORS policy to a response: when the request carries an `origin`
/// that the policy allows, writes the allow-origin, vary, credentials and
/// expose headers, and for a preflight the allowed methods, headers and max
/// age; for any other request those preflight headers are removed.
pub fn apply_cors_filter(
    response: &mut HeaderList,
    cors: &CorsFilter,
    request_method: Option<&str>,
    request_headers: Option<&HeaderList>,
)
    ensures
        final(response)@ == spec_apply_cors(
            old(response)@,
            *cors,
            match request_method {
                Some(m) => Some(m@),
                None => None,
            },
            match request_headers {
                Some(h) => Some(h@),
                None => None,
            },
        ),
{
    let Some(request_headers) = request_headers else {
        return;
    };
    let Some(origin) = request_headers.get("origin") else {
        return;
    };
    let Some(allow_origin) = cors_allow_origin(cors, origin.as_str(), request_headers) else {
        return;
    };
    response.insert("access-control-allow-origin", allow_origin.as_str());
    if !str_eq(allow_origin.as_str(), "*") {
        response.append("vary", "Origin");
    }
    if cors.allow_credentials {
        response.insert("access-control-allow-credentials", "true");
    } else {
        response.remove("access-control-allow-credentials");
    }
    if cors.expose_headers.len() != 0 {
        let joined = join_header_values(cors.expose_headers.as_slice());
        response.insert("access-control-expose-headers", joined.as_str());
    } else {
        response.remove("access-control-expose-headers");
    }
    if is_cors_preflight_request(request_method, request_headers) {
        match cors_allow_methods(cors, request_headers) {
            Some(value) => response.insert("access-control-allow-methods", value.as_str()),
            None => response.remove("access-control-allow-methods"),
        }
        match cors_allow_headers(cors, request_headers) {
            Some(value) => response.insert("access-control-allow-headers", value.as_str()),
            None => response.remove("access-control-allow-headers"),
        }
        match cors.max_age {
            Some(max_age) => {
                let value = decimal_string(max_age);
                response.insert("access-control-max-age", value.as_str());
            },
            None => response.remove("access-control-max-age"),
        }
    } else {
        response.remove("access-control-allow-methods");
        response.remove("access-control-allow-headers");
        response.remove("access-control-max-age");
    }
}

/// True for a CORS preflight request.
pub fn is_cors_preflight_request(request_method: Option<&str>, request_headers: &HeaderList) -> (out:
    bool)
    ensures
        out == spec_is_cors_preflight(
            match request_method {
                Some(m) => Some(m@),
                None => None,
            },
            request_headers@,
        ),
{
    let is_options = match request_method {
        Some(method) => {
            let m = str_chars(method);
            let o = str_chars("OPTIONS");
            chars_eq_ignore_case(m.as_slice(), o.as_slice())
        },
        None => false,
    };
    is_options && cors_request_header(request_headers, "access-control-request-method").is_some()
}

/// The first value of a request header, when it is present and not empty.
pub fn cors_request_header(request_headers: &HeaderList, name: &str) -> (out: Option<String>)
    ensures
        match out {
            Some(v) => nonempty_first_value(request_headers@, name@) == Some(v@),
            None => nonempty_first_value(request_headers@, name@) is None,
        },
{
    match request_headers.get(name) {
        Some(v) => if v.as_str().is_empty() {
            None
        } else {
            Some(v)
        },
        None => None,
    }
}

/// True when `values` holds `"*"`.
fn contains_wildcard(values: &[String]) -> (out: bool)
    ensures
        out == strs(values@).contains("*"@),
{
    let mut i: usize = 0;
    while i < values.len()
        invariant
            i <= values@.len(),
            forall|j: int| 0 <= j < i ==> values@[j]@ != "*"@,
        decreases values@.len() - i,
    {
        if str_eq(values[i].as_str(), "*") {
            assert(strs(values@)[i as int] == "*"@);
            return true;
        }
        i = i + 1;
    }
    assert(!strs(values@).contains("*"@)) by {
        if strs(values@).contains("*"@) {
            let k = choose|k: int| 0 <= k < strs(values@).len() && strs(values@)[k] == "*"@;
            assert(values@[k]@ == "*"@);
        }
    }
    false
}

/// The value of `access-control-allow-origin` for `origin`.
pub fn cors_allow_origin(cors: &CorsFilter, origin: &str, request_headers: &HeaderList) -> (out:
    Option<String>)
    ensures
        match out {
            Some(v) => spec_cors_allow_origin(*cors, origin@, request_headers@) == Some(v@),
            None => spec_cors_allow_origin(*cors, origin@, request_headers@) is None,
        },
{
    if contains_wildcard(cors.allow_origins.as_slice()) {
        if cors.allow_credentials || request_has_credentials(request_headers) {
            return Some(origin.to_owned());
        }
        return Some("*".to_owned());
    }
    let ghost allowed = strs(cors.allow_origins@);
    let mut i: usize = 0;
    while i < cors.allow_origins.len()
        invariant
            i <= cors.allow_origins@.len(),
            allowed == strs(cors.allow_origins@),
            !allowed.contains("*"@),
            forall|j: int| 0 <= j < i ==> !spec_origin_matches(allowed[j], origin@),
        decreases cors.allow_origins@.len() - i,
    {
        if origin_matches(cors.allow_origins[i].as_str(), origin) {
            assert(allowed[i as int] == cors.allow_origins@[i as int]@);
            assert(0 <= i < allowed.len() && spec_origin_matches(allowed[i as int], origin@));
            assert(exists|k: int| 0 <= k < allowed.len() && spec_origin_matches(allowed[k], origin@));
            return Some(origin.to_owned());
        }
        i = i + 1;
    }
    None
}

/// The allowed methods of a preflight response.
pub fn cors_allow_methods(cors: &CorsFilter, request_headers: &HeaderList) -> (out: Option<String>)
    ensures
        match out {
            Some(v) => spec_cors_allow_list(
                strs(cors.allow_methods@),
                cors.allow_credentials,
                request_headers@,
                "access-control-request-method"@,
            ) == Some(v@),
            None => spec_cors_allow_list(
                strs(cors.allow_methods@),
                cors.allow_credentials,
                request_headers@,
                "access-control-request-method"@,
            ) is None,
        },
{
    cors_allow_list(
        cors.allow_methods.as_slice(),
        cors.allow_credentials,
        request_headers,
        "access-control-request-method",
    )
}

/// The allowed headers of a preflight response.
pub fn cors_allow_headers(cors: &CorsFilter, request_headers: &HeaderList) -> (out: Option<String>)
    ensures
        match out {
            Some(v) => spec_cors_allow_list(
                strs(cors.allow_headers@),
                cors.allow_credentials,
                request_headers@,
                "access-control-request-headers"@,
            ) == Some(v@),
            None => spec_cors_allow_list(
                strs(cors.allow_headers@),
                cors.allow_credentials,
                request_headers@,
                "access-control-request-headers"@,
            ) is None,
        },
{
    cors_allow_list(
        cors.allow_headers.as_slice(),
        cors.allow_credentials,
        request_headers,
        "access-control-request-headers",
    )
}

fn cors_allow_list(
    list: &[String],
    allow_credentials: bool,
    request_headers: &HeaderList,
    request_header: &str,
) -> (out: Option<String>)
    ensures
        match out {
            Some(v) => spec_cors_allow_list(strs(list@), allow_credentials, request_headers@, request_header@)
                == Some(v@),
            None => spec_cors_allow_list(strs(list@), allow_credentials, request_headers@, request_header@)
                is None,
        },
{
    if list.len() == 0 {
        return None;
    }
    if allow_credentials && contains_wildcard(list) {
        return cors_request_header(request_headers, request_header);
    }
    Some(join_header_values(list))
}

/// True when the request carries credentials.
pub fn request_has_credentials(request_headers: &HeaderList) -> (out: bool)
    ensures
        out == spec_request_has_credentials(request_headers@),
{
    cors_request_header(request_headers, "cookie").is_some() || cors_request_header(
        request_headers,
        "authorization",
    ).is_some() || cors_request_header(request_headers, "proxy-authorization").is_some()
}

/// An origin split into scheme, host and port.
pub struct ParsedOrigin {
    pub scheme: Vec<char>,
    pub host: Vec<char>,
    pub port: u16,
}

impl ParsedOrigin {
    /// Parses `scheme://host[:port]`.
    pub fn parse(value: &[char]) -> (out: Option<ParsedOrigin>)
        ensures
            match out {
                Some(p) => spec_parse_origin(value@) == Some((p.scheme@, p.host@, p.port as int)),
                None => spec_parse_origin(value@) is None,
            },
    {
        reveal(spec_parse_origin);
        proof {
            reveal_strlit("://");
        }
        let sep = str_chars("://");
        let Some(i) = find_sub(value, sep.as_slice()) else {
            return None;
        };
        let scheme = chars_range(value, 0, i);
        let n = value.len();
        assert(i + 3 <= n);
        let authority = chars_range(value, i + 3, n);
        if !matches_ignore_ascii_case(scheme.as_slice(), "http") && !matches_ignore_ascii_case(
            scheme.as_slice(),
            "https",
        ) {
            return None;
        }
        let Some((host, port)) = parse_authority(scheme.as_slice(), authority.as_slice()) else {
            return None;
        };
        Some(ParsedOrigin { scheme, host, port })
    }
}

/// The host and port of an origin's authority.
fn parse_authority(scheme: &[char], authority: &[char]) -> (out: Option<(Vec<char>, u16)>)
    ensures
        match out {
            Some((h, p)) => spec_parse_authority(scheme@, authority@) == Some((h@, p as int)),
            None => spec_parse_authority(scheme@, authority@) is None,
        },
{
    reveal(spec_parse_authority);
    if authority.len() == 0 || find_char(authority, '/').is_some() || find_char(authority, '?').is_some() {
        return None;
    }
    let Some(default) = default_port(scheme) else {
        return None;
    };
    let Some((host, port)) = split_host_port(authority, default) else {
        return None;
    };
    if host.len() == 0 {
        return None;
    }
    Some((host, port))
}

/// Host and port of an authority.
pub fn split_host_port(authority: &[char], default_port: u16) -> (out: Option<(Vec<char>, u16)>)
    ensures
        match out {
            Some((h, p)) => spec_split_host_port(authority@, default_port as int) == Some((h@, p as int)),
            None => spec_split_host_port(authority@, default_port as int) is None,
        },
{
    reveal(spec_split_host_port);
    let Some(i) = last_index(authority, ':') else {
        return Some((chars_range(authority, 0, authority.len()), default_port));
    };
    let n = authority.len();
    assert(i < n);
    let host = chars_range(authority, 0, i);
    let port = chars_range(authority, i + 1, n);
    if host.len() == 0 || port.len() == 0 || !chars_all_digits(port.as_slice()) {
        return Some((chars_range(authority, 0, authority.len()), default_port));
    }
    match parse_digits_bounded(port.as_slice(), 65535) {
        Some(v) => Some((host, v as u16)),
        None => None,
    }
}

/// The default port of `http` and `https`.
pub fn default_port(scheme: &[char]) -> (out: Option<u16>)
    ensures
        match out {
            Some(p) => spec_default_port(scheme@) == Some(p as int),
            None => spec_default_port(scheme@) is None,
        },
{
    if matches_ignore_ascii_case(scheme, "http") {
        Some(80)
    } else if matches_ignore_ascii_case(scheme, "https") {
        Some(443)
    } else {
        None
    }
}

/// True when `allowed` matches the request origin.
pub fn origin_matches(allowed: &str, origin: &str) -> (out: bool)
    ensures
        out == spec_origin_matches(allowed@, origin@),
{
    reveal(spec_origin_matches);
    let a = str_chars(allowed);
    let o = str_chars(origin);
    if chars_eq_ignore_case(a.as_slice(), o.as_slice()) {
        return true;
    }
    let Some(pa) = ParsedOrigin::parse(a.as_slice()) else {
        return false;
    };
    let Some(po) = ParsedOrigin::parse(o.as_slice()) else {
        return false;
    };
    if !chars_eq_ignore_case(pa.scheme.as_slice(), po.scheme.as_slice()) || pa.port != po.port {
        return false;
    }
    host_pattern_matches(pa.host.as_slice(), po.host.as_slice())
}

/// True when a host pattern matches `host`.
pub fn host_pattern_matches(pattern: &[char], host: &[char]) -> (out: bool)
    ensures
        out == spec_host_pattern_matches(pattern@, host@),
{
    reveal(spec_host_pattern_matches);
    let star = str_chars("*");
    if chars_eq(pattern, star.as_slice()) {
        return true;
    }
    if find_char(pattern, '*').is_none() {
        return chars_eq_ignore_case(pattern, host);
    }
    let p = lower_chars(pattern);
    let h = lower_chars(host);
    assert(has_char(p@, '*')) by {
        let k = choose|k: int| 0 <= k < pattern@.len() && pattern@[k] == '*';
        assert(p@[k] == '*');
    }
    let Some(i) = first_index(p.as_slice(), '*') else {
        return false;
    };
    let n = p.len();
    assert(i < n);
    let prefix = chars_range(p.as_slice(), 0, i);
    let suffix = chars_range(p.as_slice(), i + 1, n);
    chars_starts_with(h.as_slice(), prefix.as_slice()) && chars_ends_with(
        h.as_slice(),
        suffix.as_slice(),
    ) && h.len() > prefix.len() + suffix.len()
}

/// ASCII case-insensitive equality with a literal.
pub fn matches_ignore_ascii_case(left: &[char], right: &str) -> (out: bool)
    ensures
        out == eq_ignore_case(left@, right@),
{
    let r = str_chars(right);
    chars_eq_ignore_case(left, r.as_slice())
}

/// Header values joined by ", ".
pub fn join_header_values(values: &[String]) -> (out: String)
    ensures
        out@ == seq_join(strs(values@), ", "@),
{
    join_strings(values, ", ")
}

/// An allowed origin that differs from the request origin (ASCII case
/// ignored) matches it only when both parse, with the same scheme and the
/// same port, explicit or the scheme's default.
pub proof fn lemma_pattern_match_needs_same_scheme_and_port(allowed: Seq<char>, origin: Seq<char>)
    requires
        !eq_ignore_case(allowed, origin),
        spec_origin_matches(allowed, origin),
    ensures
        spec_parse_origin(allowed) is Some,
        spec_parse_origin(origin) is Some,
        eq_ignore_case(spec_parse_origin(allowed).unwrap().0, spec_parse_origin(origin).unwrap().0),
        spec_parse_origin(allowed).unwrap().2 == spec_parse_origin(origin).unwrap().2,
        spec_host_pattern_matches(
            spec_parse_origin(allowed).unwrap().1,
            spec_parse_origin(origin).unwrap().1,
        ),
{
    reveal(spec_origin_matches);
}

/// Two origins that parse to different ports never match unless they are
/// equal ignoring ASCII case, whatever the host pattern: a pattern on the
/// default https port does not admit an origin on another port.
pub proof fn lemma_different_ports_never_match(
    allowed: Seq<char>,
    origin: Seq<char>,
    a: (Seq<char>, Seq<char>, int),
    o: (Seq<char>, Seq<char>, int),
)
    requires
        !eq_ignore_case(allowed, origin),
        spec_parse_origin(allowed) == Some(a),
        spec_parse_origin(origin) == Some(o),
        a.2 != o.2,
    ensures
        !spec_origin_matches(allowed, origin),
{
    reveal(spec_origin_matches);
}

/// An origin with no explicit port parses to its scheme's default port: 443
/// for https and 80 for http.
pub proof fn lemma_origin_without_port_has_default_port(value: Seq<char>)
    requires
        spec_parse_origin(value) is Some,
        !has_char(
            value.subrange(first_occurrence(value, "://"@).unwrap() + 3, value.len() as int),
            ':',
        ),
    ensures
        spec_default_port(spec_parse_origin(value).unwrap().0) == Some(
            spec_parse_origin(value).unwrap().2,
        ),
{
    reveal(spec_parse_origin);
    reveal(spec_parse_authority);
    reveal(spec_split_host_port);
    let i = first_occurrence(value, "://"@).unwrap();
    let authority = value.subrange(i + 3, value.len() as int);
    lemma_last_index_of_absent(authority, ':');
}

/// A policy that allows `*` answers every origin: with the origin itself
/// when credentials are involved, else with `*`.
pub proof fn lemma_wildcard_allows_every_origin(cors: CorsFilter, origin: Seq<char>, req: HeaderSeq)
    requires
        strs(cors.allow_origins@).contains("*"@),
    ensures
        spec_cors_allow_origin(cors, origin, req) == (if cors.allow_credentials
            || spec_request_has_credentials(req) {
            Some(origin)
        } else {
            Some("*"@)
        }),
{
}

/// An origin listed as it is, in a policy without `*`, is echoed back.
pub proof fn lemma_listed_origin_is_echoed(cors: CorsFilter, origin: Seq<char>, req: HeaderSeq)
    requires
        !strs(cors.allow_origins@).contains("*"@),
        strs(cors.allow_origins@).contains(origin),
    ensures
        spec_cors_allow_origin(cors, origin, req) == Some(origin),
{
    let allowed = strs(cors.allow_origins@);
    let i = choose|i: int| 0 <= i < allowed.len() && allowed[i] == origin;
    reveal(spec_origin_matches);
    assert(eq_ignore_case(origin, origin));
    assert(spec_origin_matches(allowed[i], origin));
}

} // verus!
