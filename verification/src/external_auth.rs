//! External authorization: the request sent to an HTTP authorization
//! service, the reading of its answer, the headers it may add to the
//! upstream request, and the decisions of a gRPC ext_authz check.
use crate::headers::{inserted, values_of, HeaderList, HeaderSeq};
use crate::text::{
    all_digits, chars_all_digits, copy_str, decimal, digits_value, eq_ignore_case, has_char,
    is_unicode_whitespace, lower_seq, lower_string, push_decimal, push_str_chars, str_chars,
    str_eq_ignore_case, string_from_chars, trim_chars, trim_ws,
};
use vstd::prelude::*;

verus! {

/// Headers an authorization service may never set on the upstream request.
pub open spec fn spec_is_forbidden_backend_request_header(name: Seq<char>) -> bool {
    eq_ignore_case(name, "host"@) || eq_ignore_case(name, "authority"@) || eq_ignore_case(
        name,
        ":authority"@,
    )
}

pub fn is_forbidden_backend_request_header(name: &str) -> (forbidden: bool)
    ensures
        forbidden == spec_is_forbidden_backend_request_header(name@),
{
    let a = str_eq_ignore_case(name, "host");
    let b = str_eq_ignore_case(name, "authority");
    let c = str_eq_ignore_case(name, ":authority");
    a || b || c
}

/// A character the http crate accepts in a header name: an RFC 9110 token
/// character (upper-case letters are folded to lower case).
pub open spec fn is_header_name_char(c: char) -> bool {
    ('0' <= c && c <= '9') || ('a' <= c && c <= 'z') || ('A' <= c && c <= 'Z') || c == '!' || c
        == '#' || c == '$' || c == '%' || c == '&' || c == '\'' || c == '*' || c == '+' || c == '-'
        || c == '.' || c == '^' || c == '_' || c == '`' || c == '|' || c == '~'
}

/// Whether the http crate accepts a text as a header name: one to 65535
/// token characters.
pub open spec fn spec_valid_header_name(name: Seq<char>) -> bool {
    1 <= name.len() <= 65535 && forall|i: int| 0 <= i < name.len() ==> is_header_name_char(
        #[trigger] name[i],
    )
}

/// `http::HeaderName::from_bytes(name.as_bytes()).is_ok()`.
#[verifier::external_body]
pub(crate) fn header_name_is_valid(name: &str) -> (valid: bool)
    ensures
        valid == spec_valid_header_name(name@),
{
    http::HeaderName::from_bytes(name.as_bytes()).is_ok()
}

/// Whether the http crate accepts a text as a header value: every byte is a
/// tab or at least a space and not DEL, so every character is a tab, or at
/// least a space and not DEL (the bytes of other characters are all above
/// 0x7f).
pub open spec fn spec_valid_header_value(value: Seq<char>) -> bool {
    forall|i: int|
        0 <= i < value.len() ==> #[trigger] value[i] == '\t' || (value[i] >= ' ' && value[i]
            != '\u{7f}')
}

/// `http::HeaderValue::from_str(value).is_ok()`.
#[verifier::external_body]
pub(crate) fn header_value_is_valid(value: &str) -> (valid: bool)
    ensures
        valid == spec_valid_header_value(value@),
{
    http::HeaderValue::from_str(value).is_ok()
}

/// Whether `name` is one of `allowed`, ignoring ASCII case.
pub open spec fn spec_name_listed(allowed: Seq<String>, name: Seq<char>) -> bool {
    exists|k: int| 0 <= k < allowed.len() && eq_ignore_case(#[trigger] allowed[k]@, name)
}

fn name_listed(allowed: &[String], name: &str) -> (listed: bool)
    ensures
        listed == spec_name_listed(allowed@, name@),
{
    let mut k: usize = 0;
    while k < allowed.len()
        invariant
            k <= allowed@.len(),
            forall|j: int| 0 <= j < k ==> !eq_ignore_case(#[trigger] allowed@[j]@, name@),
        decreases allowed@.len() - k,
    {
        if str_eq_ignore_case(allowed[k].as_str(), name) {
            return true;
        }
        k = k + 1;
    }
    false
}

/// The response headers of an authorization service that reach the
/// upstream request: listed as allowed, and not forbidden.
pub open spec fn spec_allowed_response_headers(h: HeaderSeq, allowed: Seq<String>) -> HeaderSeq
    decreases h.len(),
{
    if h.len() == 0 {
        Seq::empty()
    } else {
        let rest = spec_allowed_response_headers(h.drop_last(), allowed);
        let (n, v) = h.last();
        if spec_name_listed(allowed, n) && !spec_is_forbidden_backend_request_header(n) {
            rest.push((n, v))
        } else {
            rest
        }
    }
}

pub fn allowed_response_headers(headers: &HeaderList, allowed: &[String]) -> (out: HeaderList)
    ensures
        out@ == spec_allowed_response_headers(headers@, allowed@),
{
    let ghost h = headers@;
    let mut out = HeaderList::new();
    let mut i: usize = 0;
    while i < headers.entries.len()
        invariant
            i <= headers.entries@.len(),
            h == headers@,
            h.len() == headers.entries@.len(),
            out@ == spec_allowed_response_headers(h.take(i as int), allowed@),
        decreases headers.entries@.len() - i,
    {
        assert(h.take(i + 1).drop_last() =~= h.take(i as int));
        assert(h.take(i + 1).last() == h[i as int]);
        let entry = &headers.entries[i];
        assert(h[i as int] == (entry.name@, entry.value@));
        if name_listed(allowed, entry.name.as_str()) && !is_forbidden_backend_request_header(
            entry.name.as_str(),
        ) {
            out.append(entry.name.as_str(), entry.value.as_str());
        }
        i = i + 1;
    }
    assert(h.take(headers.entries@.len() as int) =~= h);
    out
}

/// Whether an authorization header of `auth` is applied: it is neither
/// forbidden nor an invalid header name.
pub open spec fn applied(name: Seq<char>) -> bool {
    !spec_is_forbidden_backend_request_header(name) && spec_valid_header_name(name)
}

/// Some earlier applied header has exactly this name.
pub open spec fn seen_before(auth: HeaderSeq, i: int, name: Seq<char>) -> bool {
    exists|k: int| 0 <= k < i && #[trigger] auth[k].0 == name && applied(auth[k].0)
}

/// The upstream request after the authorization service's headers: the
/// first value under a name replaces the request's fields of that name, the
/// following ones are added after it; names are written in lowercase.
pub open spec fn spec_apply_auth_headers(h: HeaderSeq, auth: HeaderSeq) -> HeaderSeq
    decreases auth.len(),
{
    if auth.len() == 0 {
        h
    } else {
        let prev = spec_apply_auth_headers(h, auth.drop_last());
        let (n, v) = auth.last();
        if !applied(n) {
            prev
        } else if seen_before(auth, auth.len() - 1, n) {
            prev.push((lower_seq(n), v))
        } else {
            inserted(prev, lower_seq(n), v)
        }
    }
}

proof fn lemma_seen_before_step(a: HeaderSeq, i: int, nm: Seq<char>)
    requires
        0 <= i < a.len(),
    ensures
        seen_before(a, i + 1, nm) == (seen_before(a, i, nm) || (a[i].0 == nm && applied(a[i].0))),
{
    if seen_before(a, i + 1, nm) {
        let k = choose|k: int| 0 <= k < i + 1 && #[trigger] a[k].0 == nm && applied(a[k].0);
        if k < i {
            assert(seen_before(a, i, nm));
        }
    }
    if seen_before(a, i, nm) {
        let k = choose|k: int| 0 <= k < i && #[trigger] a[k].0 == nm && applied(a[k].0);
        assert(a[k].0 == nm);
    }
    if a[i].0 == nm && applied(a[i].0) {
        assert(a[i].0 == nm);
    }
}

pub fn apply_external_auth_response_headers(request: &mut HeaderList, auth: &HeaderList)
    ensures
        final(request)@ == spec_apply_auth_headers(old(request)@, auth@),
{
    let ghost a = auth@;
    let mut seen: Vec<String> = Vec::new();
    let mut i: usize = 0;
    while i < auth.entries.len()
        invariant
            i <= auth.entries@.len(),
            a == auth@,
            a.len() == auth.entries@.len(),
            request@ == spec_apply_auth_headers(old(request)@, a.take(i as int)),
            forall|name: Seq<char>|
                #![trigger seen_before(a, i as int, name)]
                (exists|s: int| 0 <= s < seen@.len() && (#[trigger] seen@[s])@ == name)
                    <==> seen_before(a, i as int, name),
        decreases auth.entries@.len() - i,
    {
        let ghost prefix = a.take(i + 1);
        assert(prefix.drop_last() =~= a.take(i as int));
        assert(prefix.last() == a[i as int]);
        let entry = &auth.entries[i];
        assert(a[i as int] == (entry.name@, entry.value@));
        assert forall|name: Seq<char>| seen_before(prefix, i as int, name) == seen_before(
            a,
            i as int,
            name,
        ) by {
            if seen_before(prefix, i as int, name) {
                let k = choose|k: int|
                    0 <= k < i && #[trigger] prefix[k].0 == name && applied(prefix[k].0);
                assert(a[k].0 == name);
            }
            if seen_before(a, i as int, name) {
                let k = choose|k: int| 0 <= k < i && #[trigger] a[k].0 == name && applied(a[k].0);
                assert(prefix[k].0 == name);
            }
        }
        let name = entry.name.as_str();
        let ghost old_seen = seen@;
        if !is_forbidden_backend_request_header(name) && header_name_is_valid(name) {
            let lower = lower_string(name);
            let mut already = false;
            let mut s: usize = 0;
            while s < seen.len()
                invariant
                    s <= seen@.len(),
                    already == exists|j: int| 0 <= j < s && (#[trigger] seen@[j])@ == name@,
                decreases seen@.len() - s,
            {
                if crate::text::str_eq(seen[s].as_str(), name) {
                    already = true;
                }
                s = s + 1;
            }
            if already {
                request.append(lower.as_str(), entry.value.as_str());
                proof {
                    let j = choose|j: int| 0 <= j < old_seen.len() && (#[trigger] old_seen[j])@ == name@;
                    assert(seen_before(a, i as int, name@));
                }
            } else {
                request.insert(lower.as_str(), entry.value.as_str());
                seen.push(copy_str(name));
                proof {
                    if seen_before(a, i as int, name@) {
                        let j = choose|j: int| 0 <= j < old_seen.len() && (#[trigger] old_seen[j])@ == name@;
                        assert(false);
                    }
                }
            }
            proof {
                let next = i + 1;
                assert forall|nm: Seq<char>|
                    #![trigger seen_before(a, next, nm)]
                    (exists|t: int| 0 <= t < seen@.len() && (#[trigger] seen@[t])@ == nm)
                        <==> seen_before(a, next, nm) by {
                    lemma_seen_before_step(a, i as int, nm);
                    if seen_before(a, i as int, nm) {
                        let j = choose|j: int| 0 <= j < old_seen.len() && (#[trigger] old_seen[j])@ == nm;
                        assert(seen@[j] == old_seen[j]);
                    }
                    if exists|t: int| 0 <= t < seen@.len() && (#[trigger] seen@[t])@ == nm {
                        let t = choose|t: int| 0 <= t < seen@.len() && (#[trigger] seen@[t])@ == nm;
                        if t < old_seen.len() {
                            assert(old_seen[t] == seen@[t]);
                        }
                    }
                    if nm == name@ && !seen_before(a, i as int, nm) {
                        assert(seen@[seen@.len() - 1]@ == nm);
                    }
                }
            }
        } else {
            proof {
                let next = i + 1;
                assert forall|nm: Seq<char>|
                    #![trigger seen_before(a, next, nm)]
                    seen_before(a, next, nm) == seen_before(a, i as int, nm) by {
                    lemma_seen_before_step(a, i as int, nm);
                }
            }
        }
        i = i + 1;
    }
    assert(a.take(auth.entries@.len() as int) =~= a);
}

/// `name: value\r\n` for each value that holds no CR or LF.
pub open spec fn spec_value_lines(name: Seq<char>, values: Seq<Seq<char>>) -> Seq<char>
    decreases values.len(),
{
    if values.len() == 0 {
        Seq::empty()
    } else {
        let v = values.last();
        spec_value_lines(name, values.drop_last()) + if has_char(v, '\r') || has_char(v, '\n') {
            Seq::empty()
        } else {
            name + ": "@ + v + "\r\n"@
        }
    }
}

/// The lines of the allowed headers other than `authorization`, each under
/// its lowercase name, in the order they are allowed.
pub open spec fn spec_allowed_lines(request: HeaderSeq, allowed: Seq<String>) -> Seq<char>
    decreases allowed.len(),
{
    if allowed.len() == 0 {
        Seq::empty()
    } else {
        let n = allowed.last()@;
        spec_allowed_lines(request, allowed.drop_last()) + if spec_valid_header_name(n) && lower_seq(n)
            != "authorization"@ {
            spec_value_lines(lower_seq(n), values_of(request, n))
        } else {
            Seq::empty()
        }
    }
}

/// The head of the request sent to an HTTP authorization service.
pub open spec fn spec_auth_request_head(
    method: Seq<char>,
    path: Seq<char>,
    request: HeaderSeq,
    allowed: Seq<String>,
    body_len: nat,
) -> Seq<char> {
    method + " "@ + (if path.len() == 0 {
        "/"@
    } else {
        path
    }) + " HTTP/1.1\r\n"@ + "Host: external-auth\r\n"@ + "Connection: close\r\n"@
        + "Content-Length: "@ + decimal(body_len) + "\r\n"@ + spec_value_lines(
        "authorization"@,
        values_of(request, "authorization"@),
    ) + spec_allowed_lines(request, allowed) + "\r\n"@
}

fn push_value_lines(out: &mut String, name: &str, values: &Vec<String>)
    ensures
        final(out)@ == old(out)@ + spec_value_lines(name@, values@.map_values(|s: String| s@)),
{
    let ghost vs = values@.map_values(|s: String| s@);
    let mut k: usize = 0;
    assert(old(out)@ + spec_value_lines(name@, vs.take(0)) =~= old(out)@);
    while k < values.len()
        invariant
            k <= values@.len(),
            vs == values@.map_values(|s: String| s@),
            out@ == old(out)@ + spec_value_lines(name@, vs.take(k as int)),
        decreases values@.len() - k,
    {
        assert(vs.take(k + 1).drop_last() =~= vs.take(k as int));
        assert(vs.take(k + 1).last() == values@[k as int]@);
        let chars = str_chars(values[k].as_str());
        let cr = crate::text::find_char(chars.as_slice(), '\r');
        let lf = crate::text::find_char(chars.as_slice(), '\n');
        let ghost before = out@;
        if cr.is_none() && lf.is_none() {
            push_str_chars(out, name);
            push_str_chars(out, ": ");
            push_str_chars(out, values[k].as_str());
            push_str_chars(out, "\r\n");
            assert(out@ =~= before + (name@ + ": "@ + values@[k as int]@ + "\r\n"@));
        } else {
            assert(out@ =~= before + Seq::<char>::empty());
        }
        k = k + 1;
    }
    assert(vs.take(values@.len() as int) =~= vs);
}

/// The bytes of the request sent to an HTTP authorization service: the
/// method and the configured path (`/` when empty), fixed `Host` and
/// `Connection: close`, the body length, the request's `authorization`
/// values and those of the allowed headers (values with CR or LF are
/// dropped), then the body.
pub fn build_auth_request(
    method: &str,
    auth_path: &str,
    request: &HeaderList,
    allowed_headers: &[String],
    body: &[u8],
) -> (out: Vec<u8>)
    ensures
        out@ == vstd::utf8::encode_utf8(
            spec_auth_request_head(method@, auth_path@, request@, allowed_headers@, body@.len()),
        ) + body@,
{
    let mut head = copy_str(method);
    push_str_chars(&mut head, " ");
    if auth_path.is_empty() {
        push_str_chars(&mut head, "/");
    } else {
        push_str_chars(&mut head, auth_path);
    }
    push_str_chars(&mut head, " HTTP/1.1\r\n");
    push_str_chars(&mut head, "Host: external-auth\r\n");
    push_str_chars(&mut head, "Connection: close\r\n");
    push_str_chars(&mut head, "Content-Length: ");
    push_decimal(&mut head, body.len() as u64);
    push_str_chars(&mut head, "\r\n");
    let authorization = request.get_all("authorization");
    push_value_lines(&mut head, "authorization", &authorization);
    let ghost after_auth = head@;
    let mut k: usize = 0;
    assert(spec_allowed_lines(request@, allowed_headers@.take(0)) =~= Seq::<char>::empty());
    assert(head@ =~= after_auth + spec_allowed_lines(request@, allowed_headers@.take(0)));
    while k < allowed_headers.len()
        invariant
            k <= allowed_headers@.len(),
            head@ == after_auth + spec_allowed_lines(request@, allowed_headers@.take(k as int)),
        decreases allowed_headers@.len() - k,
    {
        assert(allowed_headers@.take(k + 1).drop_last() =~= allowed_headers@.take(k as int));
        assert(allowed_headers@.take(k + 1).last() == allowed_headers@[k as int]);
        let name = allowed_headers[k].as_str();
        let ghost before = head@;
        if header_name_is_valid(name) {
            let lower = lower_string(name);
            if !crate::text::str_eq(lower.as_str(), "authorization") {
                let values = request.get_all(name);
                push_value_lines(&mut head, lower.as_str(), &values);
            } else {
                assert(head@ =~= before + Seq::<char>::empty());
            }
        } else {
            assert(head@ =~= before + Seq::<char>::empty());
        }
        k = k + 1;
    }
    assert(allowed_headers@.take(allowed_headers@.len() as int) =~= allowed_headers@);
    push_str_chars(&mut head, "\r\n");
    assert(head@ =~= spec_auth_request_head(
        method@,
        auth_path@,
        request@,
        allowed_headers@,
        body@.len(),
    ));
    let head_bytes = head.as_str().as_bytes();
    let mut out: Vec<u8> = Vec::new();
    let mut i: usize = 0;
    while i < head_bytes.len()
        invariant
            i <= head_bytes@.len(),
            out@ == head_bytes@.take(i as int),
        decreases head_bytes@.len() - i,
    {
        out.push(head_bytes[i]);
        i = i + 1;
        assert(out@ =~= head_bytes@.take(i as int));
    }
    assert(head_bytes@.take(head_bytes@.len() as int) =~= head_bytes@);
    let ghost head_part = out@;
    let mut j: usize = 0;
    while j < body.len()
        invariant
            j <= body@.len(),
            out@ == head_part + body@.take(j as int),
        decreases body@.len() - j,
    {
        out.push(body[j]);
        j = j + 1;
        assert(out@ =~= head_part + body@.take(j as int));
    }
    assert(body@.take(body@.len() as int) =~= body@);
    out
}

/// An authorization service allows a request with any 2xx status.
pub fn auth_status_allows(status: u16) -> (allows: bool)
    ensures
        allows == (200 <= status && status <= 299),
{
    200 <= status && status <= 299
}

/// The status of a gRPC denial: its code when it is a valid HTTP status
/// (100..=599), else 403.
pub fn grpc_denied_status(code: Option<i32>) -> (status: u16)
    ensures
        status == match code {
            Some(c) => if 100 <= c && c <= 599 {
                c as int
            } else {
                403
            },
            None => 403,
        },
{
    match code {
        Some(c) => if 100 <= c && c <= 599 {
            c as u16
        } else {
            403
        },
        None => 403,
    }
}

/// The kind of HTTP decision a gRPC ext_authz answer carries.
#[derive(Debug, Clone, Copy, PartialEq, Eq)]
pub enum GrpcCheckDecision {
    OkResponse,
    DeniedResponse,
    Missing,
}

/// What a gRPC check answer means.
#[derive(Debug, Clone, PartialEq, Eq)]
pub enum GrpcCheckOutcome {
    Allow,
    Deny,
    ProtocolError(String),
}

/// An OK decision allows unless the status code says otherwise; a denial
/// denies; with no decision, status code 0 allows and anything else is a
/// protocol error.
pub fn grpc_check_outcome(decision: GrpcCheckDecision, status_code: Option<i32>) -> (outcome:
    GrpcCheckOutcome)
    ensures
        match decision {
            GrpcCheckDecision::OkResponse => if status_code is Some && status_code->0 != 0 {
                outcome is ProtocolError && outcome->ProtocolError_0@ == "non-OK ext_authz status"@
            } else {
                outcome == GrpcCheckOutcome::Allow
            },
            GrpcCheckDecision::DeniedResponse => outcome == GrpcCheckOutcome::Deny,
            GrpcCheckDecision::Missing => if status_code == Some(0i32) {
                outcome == GrpcCheckOutcome::Allow
            } else {
                outcome is ProtocolError && outcome->ProtocolError_0@
                    == "ext_authz response missing HTTP decision"@
            },
        },
{
    match decision {
        GrpcCheckDecision::OkResponse => {
            if let Some(c) = status_code {
                if c != 0 {
                    return GrpcCheckOutcome::ProtocolError(copy_str("non-OK ext_authz status"));
                }
            }
            GrpcCheckOutcome::Allow
        },
        GrpcCheckDecision::DeniedResponse => GrpcCheckOutcome::Deny,
        GrpcCheckDecision::Missing => {
            if let Some(c) = status_code {
                if c == 0 {
                    return GrpcCheckOutcome::Allow;
                }
            }
            GrpcCheckOutcome::ProtocolError(copy_str("ext_authz response missing HTTP decision"))
        },
    }
}

/// `s` split at every `\r\n`, as `str::split("\r\n")` gives it.
pub open spec fn spec_split_crlf_from(s: Seq<char>, current: Seq<char>) -> Seq<Seq<char>>
    decreases s.len(),
{
    if s.len() == 0 {
        seq![current]
    } else if s.len() >= 2 && s[0] == '\r' && s[1] == '\n' {
        seq![current] + spec_split_crlf_from(s.subrange(2, s.len() as int), Seq::empty())
    } else {
        spec_split_crlf_from(s.drop_first(), current.push(s[0]))
    }
}

pub open spec fn spec_split_crlf(s: Seq<char>) -> Seq<Seq<char>> {
    spec_split_crlf_from(s, Seq::empty())
}

fn split_crlf(text: &[char]) -> (pieces: Vec<Vec<char>>)
    ensures
        pieces@.map_values(|l: Vec<char>| l@) == spec_split_crlf(text@),
        pieces@.len() >= 1,
{
    let n = text.len();
    let mut pieces: Vec<Vec<char>> = Vec::new();
    let mut current: Vec<char> = Vec::new();
    let mut i: usize = 0;
    assert(text@.subrange(0, n as int) =~= text@);
    assert(current@ =~= Seq::<char>::empty());
    assert(pieces@.map_values(|l: Vec<char>| l@) + spec_split_crlf(text@) =~= spec_split_crlf(text@));
    while i < n
        invariant
            i <= n == text@.len(),
            pieces@.map_values(|l: Vec<char>| l@) + spec_split_crlf_from(
                text@.subrange(i as int, n as int),
                current@,
            ) == spec_split_crlf(text@),
        decreases n - i,
    {
        let ghost rest = text@.subrange(i as int, n as int);
        let ghost before = pieces@.map_values(|l: Vec<char>| l@);
        if i + 1 < n && text[i] == '\r' && text[i + 1] == '\n' {
            assert(rest.subrange(2, rest.len() as int) =~= text@.subrange(i + 2, n as int));
            let done = current;
            pieces.push(done);
            current = Vec::new();
            assert(pieces@.map_values(|l: Vec<char>| l@) =~= before.push(done@));
            assert(before + (seq![done@] + spec_split_crlf_from(
                rest.subrange(2, rest.len() as int),
                Seq::empty(),
            )) =~= before.push(done@) + spec_split_crlf_from(
                rest.subrange(2, rest.len() as int),
                Seq::empty(),
            ));
            i = i + 2;
        } else {
            assert(rest.drop_first() =~= text@.subrange(i + 1, n as int));
            current.push(text[i]);
            i = i + 1;
        }
    }
    let ghost before = pieces@.map_values(|l: Vec<char>| l@);
    let last = current;
    pieces.push(last);
    assert(text@.subrange(n as int, n as int).len() == 0);
    assert(pieces@.map_values(|l: Vec<char>| l@) =~= before + seq![last@]);
    pieces
}

/// The whitespace-separated words of `s`, as `str::split_whitespace`
/// gives them, the first one starting with `current`.
pub open spec fn spec_words_from(s: Seq<char>, current: Seq<char>) -> Seq<Seq<char>>
    decreases s.len(),
{
    if s.len() == 0 {
        if current.len() > 0 {
            seq![current]
        } else {
            Seq::empty()
        }
    } else if is_unicode_whitespace(s[0]) {
        (if current.len() > 0 {
            seq![current]
        } else {
            Seq::empty()
        }) + spec_words_from(s.drop_first(), Seq::empty())
    } else {
        spec_words_from(s.drop_first(), current.push(s[0]))
    }
}

pub open spec fn spec_words(s: Seq<char>) -> Seq<Seq<char>> {
    spec_words_from(s, Seq::empty())
}

fn words(text: &[char]) -> (out: Vec<Vec<char>>)
    ensures
        out@.map_values(|l: Vec<char>| l@) == spec_words(text@),
{
    let n = text.len();
    let mut out: Vec<Vec<char>> = Vec::new();
    let mut current: Vec<char> = Vec::new();
    let mut i: usize = 0;
    assert(text@.subrange(0, n as int) =~= text@);
    assert(current@ =~= Seq::<char>::empty());
    assert(out@.map_values(|l: Vec<char>| l@) + spec_words(text@) =~= spec_words(text@));
    while i < n
        invariant
            i <= n == text@.len(),
            out@.map_values(|l: Vec<char>| l@) + spec_words_from(
                text@.subrange(i as int, n as int),
                current@,
            ) == spec_words(text@),
        decreases n - i,
    {
        let ghost rest = text@.subrange(i as int, n as int);
        let ghost before = out@.map_values(|l: Vec<char>| l@);
        assert(rest.drop_first() =~= text@.subrange(i + 1, n as int));
        if crate::text::is_whitespace_char(text[i]) {
            if current.len() > 0 {
                let done = current;
                out.push(done);
                current = Vec::new();
                assert(out@.map_values(|l: Vec<char>| l@) =~= before.push(done@));
                assert(before + (seq![done@] + spec_words_from(rest.drop_first(), Seq::empty()))
                    =~= before.push(done@) + spec_words_from(rest.drop_first(), Seq::empty()));
            } else {
                assert(before + (Seq::<Seq<char>>::empty() + spec_words_from(
                    rest.drop_first(),
                    Seq::empty(),
                )) =~= before + spec_words_from(rest.drop_first(), Seq::empty()));
                current = Vec::new();
            }
        } else {
            current.push(text[i]);
        }
        i = i + 1;
    }
    assert(text@.subrange(n as int, n as int).len() == 0);
    if current.len() > 0 {
        let ghost before = out@.map_values(|l: Vec<char>| l@);
        let last = current;
        out.push(last);
        assert(out@.map_values(|l: Vec<char>| l@) =~= before + seq![last@]);
    } else {
        assert(out@.map_values(|l: Vec<char>| l@) =~= out@.map_values(|l: Vec<char>| l@) + Seq::<
            Seq<char>,
        >::empty());
    }
    out
}

/// `str::parse::<u16>`: an optional `+`, then one or more digits whose
/// value fits.
pub open spec fn spec_parse_u16(s: Seq<char>) -> Option<u16> {
    let digits = if s.len() > 0 && s[0] == '+' {
        s.drop_first()
    } else {
        s
    };
    if digits.len() > 0 && all_digits(digits) && digits_value(digits) <= 65535 {
        Some(digits_value(digits) as u16)
    } else {
        None
    }
}

fn parse_u16(s: &[char]) -> (out: Option<u16>)
    ensures
        out == spec_parse_u16(s@),
{
    let n = s.len();
    let digits = if n > 0 && s[0] == '+' {
        crate::text::chars_range(s, 1, n)
    } else {
        crate::text::chars_range(s, 0, n)
    };
    assert(s@.subrange(0, n as int) =~= s@);
    assert(n > 0 ==> s@.subrange(1, n as int) =~= s@.drop_first());
    if digits.len() == 0 || !chars_all_digits(digits.as_slice()) {
        return None;
    }
    match crate::text::parse_digits_bounded(digits.as_slice(), 65535) {
        Some(v) => Some(v as u16),
        None => None,
    }
}

/// The head of an authorization service's answer.
#[derive(Debug)]
pub struct AuthResponseHead {
    pub status: u16,
    pub headers: HeaderList,
    pub content_length: usize,
}

/// The header fields of the answer's header lines: each line with a colon
/// gives its name and trimmed value; other lines are skipped.
pub open spec fn spec_head_fields(lines: Seq<Seq<char>>) -> HeaderSeq
    decreases lines.len(),
{
    if lines.len() == 0 {
        Seq::empty()
    } else {
        let rest = spec_head_fields(lines.drop_last());
        match crate::text::spec_split_once(lines.last(), ':') {
            Some(kv) => rest.push((kv.0, trim_ws(kv.1))),
            None => rest,
        }
    }
}

/// The declared body length: the value of the last `content-length` field
/// (0 when it does not parse), 0 without one.
pub open spec fn spec_head_content_length(fields: HeaderSeq) -> usize
    decreases fields.len(),
{
    if fields.len() == 0 {
        0
    } else if eq_ignore_case(fields.last().0, "content-length"@) {
        match crate::request::spec_parse_usize(fields.last().1) {
            Some(n) => n,
            None => 0,
        }
    } else {
        spec_head_content_length(fields.drop_last())
    }
}

/// The status of the answer: the second word of its status line.
pub open spec fn spec_head_status(head: Seq<char>) -> Option<u16> {
    let words = spec_words(spec_split_crlf(head)[0]);
    if words.len() < 2 {
        None
    } else {
        spec_parse_u16(words[1])
    }
}

/// Reads the head of an authorization service's answer (its text up to and
/// including the blank line): no status is an error (`None`).
pub fn parse_auth_response_head(head: &str) -> (out: Option<AuthResponseHead>)
    ensures
        match out {
            Some(r) => spec_head_status(head@) == Some(r.status) && r.headers@ == spec_head_fields(
                spec_split_crlf(head@).drop_first(),
            ) && r.content_length == spec_head_content_length(r.headers@),
            None => spec_head_status(head@) is None,
        },
{
    let chars = str_chars(head);
    let lines = split_crlf(chars.as_slice());
    let ghost views = lines@.map_values(|l: Vec<char>| l@);
    assert(views[0] == lines@[0]@);
    let first = words(lines[0].as_slice());
    if first.len() < 2 {
        return None;
    }
    assert(first@.map_values(|l: Vec<char>| l@)[1] == first@[1]@);
    let status = match parse_u16(first[1].as_slice()) {
        Some(s) => s,
        None => return None,
    };
    let mut headers = HeaderList::new();
    let mut content_length: usize = 0;
    let mut k: usize = 1;
    let ghost tail = views.drop_first();
    while k < lines.len()
        invariant
            1 <= k <= lines@.len(),
            views == lines@.map_values(|l: Vec<char>| l@),
            tail == views.drop_first(),
            headers@ == spec_head_fields(tail.take(k - 1)),
            content_length == spec_head_content_length(headers@),
        decreases lines@.len() - k,
    {
        assert(tail.take(k as int).drop_last() =~= tail.take(k - 1));
        assert(tail.take(k as int).last() == lines@[k as int]@);
        match crate::text::split_once_chars(lines[k].as_slice(), ':') {
            Some((name, value)) => {
                let trimmed = trim_chars(value.as_slice());
                let name_text = string_from_chars(name.as_slice());
                let value_text = string_from_chars(trimmed.as_slice());
                if str_eq_ignore_case(name_text.as_str(), "content-length") {
                    content_length = match crate::request::parse_usize(value_text.as_str()) {
                        Some(n) => n,
                        None => 0,
                    };
                }
                let ghost before = headers@;
                headers.append(name_text.as_str(), value_text.as_str());
                assert(headers@.drop_last() =~= before);
                assert(headers@.last() == (name_text@, value_text@));
            },
            None => {},
        }
        k = k + 1;
    }
    assert(tail.take(lines@.len() - 1) =~= tail);
    Some(AuthResponseHead { status, headers, content_length })
}

/// Where `name` first stands among `entries`.
pub open spec fn spec_key_index(entries: Seq<(Seq<char>, Seq<char>)>, name: Seq<char>) -> Option<int>
    decreases entries.len(),
{
    if entries.len() == 0 {
        None
    } else {
        match spec_key_index(entries.drop_last(), name) {
            Some(i) => Some(i),
            None => if entries.last().0 == name {
                Some(entries.len() - 1)
            } else {
                None
            },
        }
    }
}

proof fn lemma_key_index_prefix(entries: Seq<(Seq<char>, Seq<char>)>, name: Seq<char>, k: int)
    requires
        0 <= k <= entries.len(),
        spec_key_index(entries.take(k), name) is Some,
    ensures
        spec_key_index(entries, name) == spec_key_index(entries.take(k), name),
    decreases entries.len() - k,
{
    if k < entries.len() {
        assert(entries.take(k + 1).drop_last() =~= entries.take(k));
        lemma_key_index_prefix(entries, name, k + 1);
    } else {
        assert(entries.take(k) =~= entries);
    }
}

proof fn lemma_key_index_bounds(entries: Seq<(Seq<char>, Seq<char>)>, name: Seq<char>)
    ensures
        match spec_key_index(entries, name) {
            Some(i) => 0 <= i < entries.len() && entries[i].0 == name,
            None => forall|j: int| 0 <= j < entries.len() ==> (#[trigger] entries[j]).0 != name,
        },
    decreases entries.len(),
{
    if entries.len() > 0 {
        lemma_key_index_bounds(entries.drop_last(), name);
        match spec_key_index(entries.drop_last(), name) {
            Some(i) => {
                assert(entries.drop_last()[i] == entries[i]);
            },
            None => {
                assert forall|j: int| 0 <= j < entries.len() - 1 implies (#[trigger] entries[j]).0
                    != name by {
                    assert(entries.drop_last()[j] == entries[j]);
                }
            },
        }
    }
}

/// The request headers sent in a gRPC check: lowercase names, only allowed
/// ones when an allow list is set, repeated values joined with `,`, each
/// name once in the order it first appears.
pub open spec fn spec_grpc_request_headers(h: HeaderSeq, allowed: Seq<String>) -> Seq<
    (Seq<char>, Seq<char>),
>
    decreases h.len(),
{
    if h.len() == 0 {
        Seq::empty()
    } else {
        let prev = spec_grpc_request_headers(h.drop_last(), allowed);
        let n = lower_seq(h.last().0);
        let v = h.last().1;
        if allowed.len() > 0 && !spec_name_listed(allowed, n) {
            prev
        } else {
            match spec_key_index(prev, n) {
                Some(i) => prev.update(i, (n, prev[i].1 + ","@ + v)),
                None => prev.push((n, v)),
            }
        }
    }
}

fn key_index(entries: &Vec<(String, String)>, name: &str) -> (index: Option<usize>)
    ensures
        match index {
            Some(i) => spec_key_index(entries@.map_values(|e: (String, String)| (e.0@, e.1@)), name@)
                == Some(i as int),
            None => spec_key_index(entries@.map_values(|e: (String, String)| (e.0@, e.1@)), name@)
                is None,
        },
{
    let ghost views = entries@.map_values(|e: (String, String)| (e.0@, e.1@));
    let mut k: usize = 0;
    assert(views.take(0) =~= Seq::<(Seq<char>, Seq<char>)>::empty());
    while k < entries.len()
        invariant
            k <= entries@.len(),
            views == entries@.map_values(|e: (String, String)| (e.0@, e.1@)),
            spec_key_index(views.take(k as int), name@) is None,
        decreases entries@.len() - k,
    {
        assert(views.take(k + 1).drop_last() =~= views.take(k as int));
        assert(views.take(k + 1).last() == views[k as int]);
        if crate::text::str_eq(entries[k].0.as_str(), name) {
            proof {
                lemma_key_index_prefix(views, name@, k + 1);
            }
            return Some(k);
        }
        k = k + 1;
    }
    assert(views.take(entries@.len() as int) =~= views);
    None
}

pub fn grpc_request_headers(request: &HeaderList, allowed: &[String]) -> (out: Vec<(String, String)>)
    ensures
        out@.map_values(|e: (String, String)| (e.0@, e.1@)) == spec_grpc_request_headers(
            request@,
            allowed@,
        ),
{
    let ghost h = request@;
    let mut out: Vec<(String, String)> = Vec::new();
    let mut i: usize = 0;
    while i < request.entries.len()
        invariant
            i <= request.entries@.len(),
            h == request@,
            h.len() == request.entries@.len(),
            out@.map_values(|e: (String, String)| (e.0@, e.1@)) == spec_grpc_request_headers(
                h.take(i as int),
                allowed@,
            ),
        decreases request.entries@.len() - i,
    {
        assert(h.take(i + 1).drop_last() =~= h.take(i as int));
        assert(h.take(i + 1).last() == h[i as int]);
        let entry = &request.entries[i];
        assert(h[i as int] == (entry.name@, entry.value@));
        let name = lower_string(entry.name.as_str());
        if allowed.len() == 0 || name_listed(allowed, name.as_str()) {
            let ghost before = out@.map_values(|e: (String, String)| (e.0@, e.1@));
            match key_index(&out, name.as_str()) {
                Some(j) => {
                    proof {
                        lemma_key_index_bounds(before, name@);
                    }
                    let mut joined = copy_str(out[j].1.as_str());
                    push_str_chars(&mut joined, ",");
                    push_str_chars(&mut joined, entry.value.as_str());
                    out.set(j, (name, joined));
                    assert(out@.map_values(|e: (String, String)| (e.0@, e.1@)) =~= before.update(
                        j as int,
                        (before[j as int].0, before[j as int].1 + ","@ + entry.value@),
                    ));
                },
                None => {
                    out.push((name, copy_str(entry.value.as_str())));
                    assert(out@.map_values(|e: (String, String)| (e.0@, e.1@)) =~= before.push(
                        (lower_seq(entry.name@), entry.value@),
                    ));
                },
            }
        }
        i = i + 1;
    }
    assert(h.take(request.entries@.len() as int) =~= h);
    out
}

/// The head of a gRPC denial: its body length, then the service's headers
/// except `content-length` and names http refuses.
pub open spec fn spec_denied_headers(body_len: nat, denied: Seq<(String, String)>) -> HeaderSeq
    decreases denied.len(),
{
    if denied.len() == 0 {
        seq![("content-length"@, decimal(body_len))]
    } else {
        let prev = spec_denied_headers(body_len, denied.drop_last());
        let (k, v) = denied.last();
        if eq_ignore_case(k@, "content-length"@) || !spec_valid_header_name(k@) {
            prev
        } else {
            prev.push((k@, v@))
        }
    }
}

pub fn grpc_denied_headers(body_len: usize, denied: &[(String, String)]) -> (out: HeaderList)
    ensures
        out@ == spec_denied_headers(body_len as nat, denied@),
{
    let mut out = HeaderList::new();
    let mut len = String::new();
    push_decimal(&mut len, body_len as u64);
    out.append("content-length", len.as_str());
    let mut i: usize = 0;
    assert(denied@.take(0) =~= Seq::<(String, String)>::empty());
    while i < denied.len()
        invariant
            i <= denied@.len(),
            out@ == spec_denied_headers(body_len as nat, denied@.take(i as int)),
        decreases denied@.len() - i,
    {
        assert(denied@.take(i + 1).drop_last() =~= denied@.take(i as int));
        assert(denied@.take(i + 1).last() == denied@[i as int]);
        let key = denied[i].0.as_str();
        if !str_eq_ignore_case(key, "content-length") && header_name_is_valid(key) {
            out.append(key, denied[i].1.as_str());
        }
        i = i + 1;
    }
    assert(denied@.take(denied@.len() as int) =~= denied@);
    out
}

} // verus!
