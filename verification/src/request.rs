//! What the proxy reads from a request head: its id, declared body size,
//! header size, host, gRPC-ness, the headers response filters need, and
//! the `connection` tokens it forwards upstream.
use crate::headers::{
    first_value, inserted, name_matches, values_of, without, HeaderEntry, HeaderList, HeaderSeq,
};
use crate::text::{
    all_digits, chars_all_digits, chars_eq_ignore_case, chars_range, chars_starts_with, copy_str,
    digits_value, eq_ignore_case, lower_seq, first_index, first_index_of, has_char, is_digit, seq_join,
    spec_split, split_on, starts_with, str_chars, str_eq_ignore_case, string_from_chars, trim_chars, trim_ws,
};
use vstd::prelude::*;

verus! {

/// The host part of an authority: inside the brackets of an IPv6 literal
/// (everything after `[` when the `]` is missing), else before the first
/// colon.
pub open spec fn spec_authority_host(host: Seq<char>) -> Seq<char> {
    if host.len() > 0 && host[0] == '[' {
        let rest = host.drop_first();
        match first_index_of(rest, ']') {
            Some(i) => rest.subrange(0, i),
            None => rest,
        }
    } else {
        match first_index_of(host, ':') {
            Some(i) => host.subrange(0, i),
            None => host,
        }
    }
}

pub fn normalize_authority_host_ref(host: &str) -> (out: String)
    ensures
        out@ == spec_authority_host(host@),
{
    let chars = str_chars(host);
    let n = chars.len();
    if n > 0 && chars[0] == '[' {
        let rest = chars_range(chars.as_slice(), 1, n);
        assert(rest@ =~= host@.drop_first());
        match first_index(rest.as_slice(), ']') {
            Some(i) => {
                let head = chars_range(rest.as_slice(), 0, i);
                string_from_chars(head.as_slice())
            },
            None => string_from_chars(rest.as_slice()),
        }
    } else {
        match first_index(chars.as_slice(), ':') {
            Some(i) => {
                let head = chars_range(chars.as_slice(), 0, i);
                string_from_chars(head.as_slice())
            },
            None => string_from_chars(chars.as_slice()),
        }
    }
}

/// The host of a request: its `host` header, else the authority of its URI.
pub fn request_host_value(host_header: Option<&str>, uri_authority: Option<&str>) -> (host: Option<
    String,
>)
    ensures
        match host_header {
            Some(h) => host is Some && host->0@ == h@,
            None => match uri_authority {
                Some(a) => host is Some && host->0@ == a@,
                None => host is None,
            },
        },
{
    match host_header {
        Some(h) => Some(copy_str(h)),
        None => match uri_authority {
            Some(a) => Some(copy_str(a)),
            None => None,
        },
    }
}

/// The request id: the first value of `x-request-id`, `x-correlation-id`,
/// `traceparent` or `grpc-trace-bin`, in that order of preference; empty
/// when none is present.
pub open spec fn spec_request_id(h: HeaderSeq) -> Seq<char> {
    match first_value(h, "x-request-id"@) {
        Some(v) => v,
        None => match first_value(h, "x-correlation-id"@) {
            Some(v) => v,
            None => match first_value(h, "traceparent"@) {
                Some(v) => v,
                None => match first_value(h, "grpc-trace-bin"@) {
                    Some(v) => v,
                    None => Seq::empty(),
                },
            },
        },
    }
}

pub fn request_id_from_headers(headers: &HeaderList) -> (id: String)
    ensures
        id@ == spec_request_id(headers@),
{
    if let Some(v) = headers.get("x-request-id") {
        return v;
    }
    if let Some(v) = headers.get("x-correlation-id") {
        return v;
    }
    if let Some(v) = headers.get("traceparent") {
        return v;
    }
    if let Some(v) = headers.get("grpc-trace-bin") {
        return v;
    }
    String::new()
}

/// A present `x-request-id` header's first value is the request id,
/// whatever else the request carries.
pub proof fn lemma_request_id_from_x_request_id(h: HeaderSeq, v: Seq<char>)
    requires
        first_value(h, "x-request-id"@) == Some(v),
    ensures
        spec_request_id(h) == v,
{
}

/// Without `x-request-id`, a present `x-correlation-id` header's first value
/// is the request id.
pub proof fn lemma_request_id_from_correlation_id(h: HeaderSeq, v: Seq<char>)
    requires
        first_value(h, "x-request-id"@) is None,
        first_value(h, "x-correlation-id"@) == Some(v),
    ensures
        spec_request_id(h) == v,
{
}

/// Without `x-request-id` and `x-correlation-id`, a present `traceparent`
/// header's first value is the request id, whether or not `grpc-trace-bin`
/// is present too.
pub proof fn lemma_request_id_from_traceparent(h: HeaderSeq, v: Seq<char>)
    requires
        first_value(h, "x-request-id"@) is None,
        first_value(h, "x-correlation-id"@) is None,
        first_value(h, "traceparent"@) == Some(v),
    ensures
        spec_request_id(h) == v,
{
}

/// With none of the three preferred headers, a present `grpc-trace-bin`
/// header's first value is the request id.
pub proof fn lemma_request_id_from_grpc_trace_bin(h: HeaderSeq, v: Seq<char>)
    requires
        first_value(h, "x-request-id"@) is None,
        first_value(h, "x-correlation-id"@) is None,
        first_value(h, "traceparent"@) is None,
        first_value(h, "grpc-trace-bin"@) == Some(v),
    ensures
        spec_request_id(h) == v,
{
}

/// With none of the four headers present, the request id is empty.
pub proof fn lemma_request_id_empty_without_headers(h: HeaderSeq)
    requires
        first_value(h, "x-request-id"@) is None,
        first_value(h, "x-correlation-id"@) is None,
        first_value(h, "traceparent"@) is None,
        first_value(h, "grpc-trace-bin"@) is None,
    ensures
        spec_request_id(h) == Seq::<char>::empty(),
{
}

/// A request whose only header is a `traceparent` field (its name in any
/// ASCII case) takes that field's value as its request id.
pub proof fn lemma_lone_traceparent_is_request_id(name: Seq<char>, v: Seq<char>)
    requires
        eq_ignore_case(name, "traceparent"@),
    ensures
        spec_request_id(seq![(name, v)]) == v,
{
    let h: HeaderSeq = seq![(name, v)];
    reveal_strlit("traceparent");
    reveal_strlit("x-request-id");
    reveal_strlit("x-correlation-id");
    assert(h.drop_last() =~= Seq::<(Seq<char>, Seq<char>)>::empty());
    assert(h.last() == (name, v));
    assert(first_value(h.drop_last(), "x-request-id"@) is None);
    assert(first_value(h.drop_last(), "x-correlation-id"@) is None);
    assert(first_value(h.drop_last(), "traceparent"@) is None);
    assert(lower_seq(name).len() == 11);
    assert(lower_seq("x-request-id"@).len() == 12);
    assert(lower_seq("x-correlation-id"@).len() == 16);
    assert(!name_matches(name, "x-request-id"@));
    assert(!name_matches(name, "x-correlation-id"@));
    assert(name_matches(name, "traceparent"@));
    assert(first_value(h, "x-request-id"@) is None);
    assert(first_value(h, "x-correlation-id"@) is None);
    assert(first_value(h, "traceparent"@) == Some(v));
}

/// `str::parse::<usize>`: an optional `+`, then one or more digits whose
/// value fits.
pub open spec fn spec_parse_usize(s: Seq<char>) -> Option<usize> {
    let digits = if s.len() > 0 && s[0] == '+' {
        s.drop_first()
    } else {
        s
    };
    if digits.len() > 0 && all_digits(digits) && digits_value(digits) <= usize::MAX {
        Some(digits_value(digits) as usize)
    } else {
        None
    }
}

pub fn parse_usize(s: &str) -> (out: Option<usize>)
    ensures
        out == spec_parse_usize(s@),
{
    let chars = str_chars(s);
    let n = chars.len();
    let digits = if n > 0 && chars[0] == '+' {
        chars_range(chars.as_slice(), 1, n)
    } else {
        chars_range(chars.as_slice(), 0, n)
    };
    assert(chars@.subrange(0, n as int) =~= chars@);
    assert(n > 0 ==> chars@.subrange(1, n as int) =~= chars@.drop_first());
    if digits.len() == 0 || !chars_all_digits(digits.as_slice()) {
        return None;
    }
    match crate::text::parse_digits_bounded(digits.as_slice(), usize::MAX as u64) {
        Some(v) => Some(v as usize),
        None => None,
    }
}

/// The body size a request declares: the first `content-length` value when
/// it parses, else 0.
pub fn request_content_length(headers: &HeaderList) -> (len: usize)
    ensures
        len == match first_value(headers@, "content-length"@) {
            Some(v) => match spec_parse_usize(v) {
                Some(n) => n,
                None => 0,
            },
            None => 0,
        },
{
    match headers.get("content-length") {
        Some(v) => match parse_usize(v.as_str()) {
            Some(n) => n,
            None => 0,
        },
        None => 0,
    }
}

/// Bytes of the header fields: names plus values.
pub open spec fn spec_header_bytes(h: HeaderSeq) -> int
    decreases h.len(),
{
    if h.len() == 0 {
        0
    } else {
        spec_header_bytes(h.drop_last()) + vstd::utf8::encode_utf8(h.last().0).len()
            + vstd::utf8::encode_utf8(h.last().1).len()
    }
}

/// The size of a request head as the header limit counts it. The sum must
/// fit a `usize`.
pub fn request_header_bytes(headers: &HeaderList) -> (bytes: usize)
    requires
        spec_header_bytes(headers@) <= usize::MAX,
    ensures
        bytes == spec_header_bytes(headers@),
{
    let ghost h = headers@;
    let mut total: usize = 0;
    let mut i: usize = 0;
    while i < headers.entries.len()
        invariant
            i <= headers.entries@.len(),
            h == headers@,
            h.len() == headers.entries@.len(),
            spec_header_bytes(h) <= usize::MAX,
            total == spec_header_bytes(h.take(i as int)),
        decreases headers.entries@.len() - i,
    {
        assert(h.take(i + 1).drop_last() =~= h.take(i as int));
        assert(h.take(i + 1).last() == h[i as int]);
        proof {
            lemma_header_bytes_prefix(h, i + 1);
        }
        let entry = &headers.entries[i];
        assert(h[i as int] == (entry.name@, entry.value@));
        let size = entry.name.as_str().len() + entry.value.as_str().len();
        total = total + size;
        i = i + 1;
    }
    assert(h.take(headers.entries@.len() as int) =~= h);
    total
}

proof fn lemma_header_bytes_prefix(h: HeaderSeq, k: int)
    requires
        0 <= k <= h.len(),
    ensures
        spec_header_bytes(h.take(k)) <= spec_header_bytes(h),
    decreases h.len() - k,
{
    if k < h.len() {
        lemma_header_bytes_prefix(h, k + 1);
        assert(h.take(k + 1).drop_last() =~= h.take(k));
    } else {
        assert(h.take(k) =~= h);
    }
}

/// The header size counted against the limit; nothing is counted when no
/// limit is set.
pub fn request_header_bytes_for_limit(headers: &HeaderList, max_request_header_bytes: usize) -> (bytes:
    usize)
    requires
        max_request_header_bytes > 0 ==> spec_header_bytes(headers@) <= usize::MAX,
    ensures
        bytes == (if max_request_header_bytes == 0 {
            0
        } else {
            spec_header_bytes(headers@)
        }),
{
    if max_request_header_bytes == 0 {
        0
    } else {
        request_header_bytes(headers)
    }
}

/// Whether some `content-type` value starts with `application/grpc`.
pub open spec fn spec_request_is_grpc(h: HeaderSeq) -> bool {
    exists|k: int|
        0 <= k < values_of(h, "content-type"@).len() && starts_with(
            #[trigger] values_of(h, "content-type"@)[k],
            "application/grpc"@,
        )
}

pub fn request_is_grpc(headers: &HeaderList) -> (grpc: bool)
    ensures
        grpc == spec_request_is_grpc(headers@),
{
    let values = headers.get_all("content-type");
    let ghost views = values@.map_values(|s: String| s@);
    let prefix = str_chars("application/grpc");
    let mut k: usize = 0;
    while k < values.len()
        invariant
            k <= values@.len(),
            views == values@.map_values(|s: String| s@),
            views == values_of(headers@, "content-type"@),
            prefix@ == "application/grpc"@,
            forall|j: int| 0 <= j < k ==> !starts_with(#[trigger] views[j], "application/grpc"@),
        decreases values@.len() - k,
    {
        let v = str_chars(values[k].as_str());
        assert(views[k as int] == values@[k as int]@);
        if chars_starts_with(v.as_slice(), prefix.as_slice()) {
            return true;
        }
        k = k + 1;
    }
    false
}

/// The request headers a CORS response filter reads.
pub open spec fn is_cors_request_header(name: Seq<char>) -> bool {
    name_matches(name, "origin"@) || name_matches(name, "access-control-request-method"@)
        || name_matches(name, "access-control-request-headers"@) || name_matches(name, "cookie"@)
        || name_matches(name, "authorization"@) || name_matches(name, "proxy-authorization"@)
}

pub open spec fn spec_cors_request_headers(h: HeaderSeq) -> HeaderSeq
    decreases h.len(),
{
    if h.len() == 0 {
        Seq::empty()
    } else {
        let rest = spec_cors_request_headers(h.drop_last());
        if is_cors_request_header(h.last().0) {
            rest.push(h.last())
        } else {
            rest
        }
    }
}

fn is_cors_request_header_name(name: &str) -> (out: bool)
    ensures
        out == is_cors_request_header(name@),
{
    let a = str_eq_ignore_case(name, "origin");
    let b = str_eq_ignore_case(name, "access-control-request-method");
    let c = str_eq_ignore_case(name, "access-control-request-headers");
    let d = str_eq_ignore_case(name, "cookie");
    let e = str_eq_ignore_case(name, "authorization");
    let f = str_eq_ignore_case(name, "proxy-authorization");
    a || b || c || d || e || f
}

/// The request headers kept for response filters: only those CORS reads.
pub fn response_filter_request_headers(headers: &HeaderList) -> (out: HeaderList)
    ensures
        out@ == spec_cors_request_headers(headers@),
{
    let ghost h = headers@;
    let mut out = HeaderList::new();
    let mut i: usize = 0;
    while i < headers.entries.len()
        invariant
            i <= headers.entries@.len(),
            h == headers@,
            h.len() == headers.entries@.len(),
            out@ == spec_cors_request_headers(h.take(i as int)),
        decreases headers.entries@.len() - i,
    {
        assert(h.take(i + 1).drop_last() =~= h.take(i as int));
        assert(h.take(i + 1).last() == h[i as int]);
        let entry = &headers.entries[i];
        assert(h[i as int] == (entry.name@, entry.value@));
        if is_cors_request_header_name(entry.name.as_str()) {
            out.append(entry.name.as_str(), entry.value.as_str());
        }
        i = i + 1;
    }
    assert(h.take(headers.entries@.len() as int) =~= h);
    out
}

/// The trimmed comma-separated tokens of the `connection` fields, in order.
pub open spec fn spec_connection_tokens(h: HeaderSeq) -> Seq<Seq<char>>
    decreases h.len(),
{
    if h.len() == 0 {
        Seq::empty()
    } else {
        let rest = spec_connection_tokens(h.drop_last());
        if name_matches(h.last().0, "connection"@) {
            rest + spec_split(h.last().1, ',').map_values(|t: Seq<char>| trim_ws(t))
        } else {
            rest
        }
    }
}

/// The tokens forwarded once `close` is dropped: non-empty and not `close`.
pub open spec fn spec_kept_tokens(tokens: Seq<Seq<char>>) -> Seq<Seq<char>>
    decreases tokens.len(),
{
    if tokens.len() == 0 {
        Seq::empty()
    } else {
        let rest = spec_kept_tokens(tokens.drop_last());
        let t = tokens.last();
        if t.len() > 0 && !eq_ignore_case(t, "close"@) {
            rest.push(t)
        } else {
            rest
        }
    }
}

pub open spec fn spec_has_close(tokens: Seq<Seq<char>>) -> bool {
    exists|k: int| 0 <= k < tokens.len() && eq_ignore_case(#[trigger] tokens[k], "close"@)
}

/// The request head after dropping the client's `connection: close`: left
/// alone without such a token; otherwise the `connection` fields are
/// replaced by the remaining tokens joined with `, `, or removed when none
/// remain.
pub open spec fn spec_without_close(h: HeaderSeq) -> HeaderSeq {
    let tokens = spec_connection_tokens(h);
    if !spec_has_close(tokens) {
        h
    } else {
        let kept = spec_kept_tokens(tokens);
        if kept.len() > 0 {
            inserted(h, "connection"@, seq_join(kept, ", "@))
        } else {
            without(h, "connection"@)
        }
    }
}

fn connection_tokens(headers: &HeaderList) -> (tokens: Vec<Vec<char>>)
    ensures
        tokens@.map_values(|t: Vec<char>| t@) == spec_connection_tokens(headers@),
{
    let ghost h = headers@;
    let mut tokens: Vec<Vec<char>> = Vec::new();
    let mut i: usize = 0;
    while i < headers.entries.len()
        invariant
            i <= headers.entries@.len(),
            h == headers@,
            h.len() == headers.entries@.len(),
            tokens@.map_values(|t: Vec<char>| t@) == spec_connection_tokens(h.take(i as int)),
        decreases headers.entries@.len() - i,
    {
        assert(h.take(i + 1).drop_last() =~= h.take(i as int));
        assert(h.take(i + 1).last() == h[i as int]);
        let entry = &headers.entries[i];
        assert(h[i as int] == (entry.name@, entry.value@));
        if str_eq_ignore_case(entry.name.as_str(), "connection") {
            let pieces = split_on(entry.value.as_str(), ',');
            let ghost pviews = pieces@.map_values(|l: Vec<char>| l@);
            let ghost base = tokens@.map_values(|t: Vec<char>| t@);
            let mut j: usize = 0;
            while j < pieces.len()
                invariant
                    j <= pieces@.len(),
                    pviews == pieces@.map_values(|l: Vec<char>| l@),
                    tokens@.map_values(|t: Vec<char>| t@) == base + pviews.take(j as int).map_values(
                        |t: Seq<char>| trim_ws(t),
                    ),
                decreases pieces@.len() - j,
            {
                let ghost before = tokens@.map_values(|t: Vec<char>| t@);
                let t = trim_chars(pieces[j].as_slice());
                assert(pviews[j as int] == pieces@[j as int]@);
                tokens.push(t);
                assert(tokens@.map_values(|t: Vec<char>| t@) =~= before.push(t@));
                assert(pviews.take(j + 1).map_values(|t: Seq<char>| trim_ws(t)) =~= pviews.take(
                    j as int,
                ).map_values(|t: Seq<char>| trim_ws(t)).push(trim_ws(pviews[j as int])));
                j = j + 1;
            }
            assert(pviews.take(pieces@.len() as int) =~= pviews);
        }
        i = i + 1;
    }
    assert(h.take(headers.entries@.len() as int) =~= h);
    tokens
}

/// Drops a downstream `connection: close` before the request goes upstream,
/// keeping the other connection tokens.
pub fn remove_downstream_close_connection_token(headers: &mut HeaderList)
    ensures
        final(headers)@ == spec_without_close(old(headers)@),
{
    let tokens = connection_tokens(headers);
    let ghost tviews = tokens@.map_values(|t: Vec<char>| t@);
    let close = str_chars("close");
    let mut has_close = false;
    let mut kept: Vec<String> = Vec::new();
    let mut k: usize = 0;
    while k < tokens.len()
        invariant
            k <= tokens@.len(),
            tviews == tokens@.map_values(|t: Vec<char>| t@),
            close@ == "close"@,
            has_close == spec_has_close(tviews.take(k as int)),
            kept@.map_values(|s: String| s@) == spec_kept_tokens(tviews.take(k as int)),
        decreases tokens@.len() - k,
    {
        assert(tviews.take(k + 1).drop_last() =~= tviews.take(k as int));
        assert(tviews.take(k + 1).last() == tviews[k as int]);
        assert(tviews[k as int] == tokens@[k as int]@);
        let is_close = chars_eq_ignore_case(tokens[k].as_slice(), close.as_slice());
        proof {
            if is_close {
                assert(tviews.take(k + 1)[k as int] == tviews[k as int]);
            } else if has_close {
                let w = choose|w: int|
                    0 <= w < tviews.take(k as int).len() && eq_ignore_case(
                        #[trigger] tviews.take(k as int)[w],
                        "close"@,
                    );
                assert(tviews.take(k + 1)[w] == tviews.take(k as int)[w]);
            } else {
                assert forall|w: int| 0 <= w < tviews.take(k + 1).len() implies !eq_ignore_case(
                    #[trigger] tviews.take(k + 1)[w],
                    "close"@,
                ) by {
                    if w < k {
                        assert(tviews.take(k + 1)[w] == tviews.take(k as int)[w]);
                    }
                }
            }
        }
        if is_close {
            has_close = true;
        } else if tokens[k].len() > 0 {
            let ghost before = kept@.map_values(|s: String| s@);
            let s = string_from_chars(tokens[k].as_slice());
            kept.push(s);
            assert(kept@.map_values(|s: String| s@) =~= before.push(tviews[k as int]));
        }
        k = k + 1;
    }
    assert(tviews.take(tokens@.len() as int) =~= tviews);
    if !has_close {
        return ;
    }
    if kept.len() > 0 {
        let joined = crate::text::join_strings(kept.as_slice(), ", ");
        headers.insert("connection", joined.as_str());
    } else {
        headers.remove("connection");
    }
}

/// Every `connection` token is trimmed and holds no comma.
proof fn lemma_connection_tokens_shape(h: HeaderSeq)
    ensures
        forall|k: int|
            0 <= k < spec_connection_tokens(h).len() ==> !has_char(
                #[trigger] spec_connection_tokens(h)[k],
                ',',
            ) && trim_ws(spec_connection_tokens(h)[k]) == spec_connection_tokens(h)[k],
    decreases h.len(),
{
    if h.len() > 0 {
        lemma_connection_tokens_shape(h.drop_last());
        let rest = spec_connection_tokens(h.drop_last());
        if name_matches(h.last().0, "connection"@) {
            let pieces = spec_split(h.last().1, ',');
            crate::text::lemma_split_pieces_lack_sep(h.last().1, ',', Seq::empty());
            let all = spec_connection_tokens(h);
            assert forall|k: int| 0 <= k < all.len() implies !has_char(#[trigger] all[k], ',')
                && trim_ws(all[k]) == all[k] by {
                if k >= rest.len() {
                    let p = pieces[k - rest.len()];
                    assert(all[k] == trim_ws(p));
                    crate::text::lemma_trim_keeps_absent(p, ',');
                    crate::text::lemma_trim_idempotent(p);
                } else {
                    assert(all[k] == rest[k]);
                }
            }
        }
    }
}

/// The kept tokens are non-empty, none is `close`, and each was a token.
proof fn lemma_kept_tokens_shape(tokens: Seq<Seq<char>>)
    ensures
        forall|k: int|
            0 <= k < spec_kept_tokens(tokens).len() ==> (#[trigger] spec_kept_tokens(tokens)[k]).len()
                > 0 && !eq_ignore_case(spec_kept_tokens(tokens)[k], "close"@) && exists|j: int|
                0 <= j < tokens.len() && tokens[j] == spec_kept_tokens(tokens)[k],
    decreases tokens.len(),
{
    if tokens.len() > 0 {
        let init = tokens.drop_last();
        lemma_kept_tokens_shape(init);
        let rest = spec_kept_tokens(init);
        let all = spec_kept_tokens(tokens);
        assert forall|k: int| 0 <= k < all.len() implies (#[trigger] all[k]).len() > 0
            && !eq_ignore_case(all[k], "close"@) && exists|j: int|
            0 <= j < tokens.len() && tokens[j] == all[k] by {
            if k < rest.len() {
                assert(all[k] == rest[k]);
                let j = choose|j: int| 0 <= j < init.len() && init[j] == rest[k];
                assert(tokens[j] == init[j]);
            } else {
                assert(all[k] == tokens[tokens.len() - 1]);
            }
        }
    }
}

/// Without its `connection` fields a head has no connection tokens.
proof fn lemma_tokens_without_connection(h: HeaderSeq)
    ensures
        spec_connection_tokens(without(h, "connection"@)) == Seq::<Seq<char>>::empty(),
    decreases h.len(),
{
    if h.len() > 0 {
        lemma_tokens_without_connection(h.drop_last());
        let rest = without(h.drop_last(), "connection"@);
        if !name_matches(h.last().0, "connection"@) {
            assert(rest.push(h.last()).drop_last() =~= rest);
        }
    }
}

/// After `connection: close` is dropped, the head's connection tokens are
/// the non-empty ones other than `close`, and none of them is `close`.
pub proof fn lemma_close_token_dropped(h: HeaderSeq)
    ensures
        !spec_has_close(spec_connection_tokens(spec_without_close(h))),
        spec_has_close(spec_connection_tokens(h)) ==> spec_connection_tokens(spec_without_close(h))
            == spec_kept_tokens(spec_connection_tokens(h)),
{
    let tokens = spec_connection_tokens(h);
    if spec_has_close(tokens) {
        let kept = spec_kept_tokens(tokens);
        lemma_kept_tokens_shape(tokens);
        lemma_connection_tokens_shape(h);
        lemma_tokens_without_connection(h);
        if kept.len() > 0 {
            let joined = seq_join(kept, ", "@);
            let w = without(h, "connection"@);
            let after = w.push(("connection"@, joined));
            assert(after.drop_last() =~= w);
            assert(name_matches("connection"@, "connection"@));
            assert forall|k: int| 0 <= k < kept.len() implies !has_char(#[trigger] kept[k], ',')
                && trim_ws(kept[k]) == kept[k] by {
                let j = choose|j: int| 0 <= j < tokens.len() && tokens[j] == kept[k];
                assert(tokens[j] == kept[k]);
            }
            crate::text::lemma_split_join_comma(kept);
            assert(Seq::<Seq<char>>::empty() + spec_split(joined, ',').map_values(
                |t: Seq<char>| trim_ws(t),
            ) =~= kept);
        }
        assert forall|k: int| 0 <= k < kept.len() implies !eq_ignore_case(
            #[trigger] kept[k],
            "close"@,
        ) by {}
    }
}

/// The protocol label of a request: the listener's, else GRPC for gRPC
/// routes and HTTP otherwise.
pub fn effective_http_protocol(listener_protocol: &str, route_kind: &str) -> (protocol: String)
    ensures
        protocol@ == (if listener_protocol@.len() > 0 {
            listener_protocol@
        } else if eq_ignore_case(route_kind@, "grpc"@) {
            "GRPC"@
        } else {
            "HTTP"@
        }),
{
    if !listener_protocol.is_empty() {
        return copy_str(listener_protocol);
    }
    if str_eq_ignore_case(route_kind, "grpc") {
        copy_str("GRPC")
    } else {
        copy_str("HTTP")
    }
}

/// The request's header fields under lowercase names, in order.
pub open spec fn spec_lowercase_names(h: HeaderSeq) -> HeaderSeq {
    h.map_values(|f: (Seq<char>, Seq<char>)| (crate::text::lower_seq(f.0), f.1))
}

pub fn request_headers(headers: &HeaderList) -> (out: HeaderList)
    ensures
        out@ == spec_lowercase_names(headers@),
{
    let ghost h = headers@;
    let mut out = HeaderList::new();
    let mut i: usize = 0;
    while i < headers.entries.len()
        invariant
            i <= headers.entries@.len(),
            h == headers@,
            h.len() == headers.entries@.len(),
            out@ == spec_lowercase_names(h.take(i as int)),
        decreases headers.entries@.len() - i,
    {
        let entry = &headers.entries[i];
        assert(h[i as int] == (entry.name@, entry.value@));
        let lower = crate::text::lower_string(entry.name.as_str());
        out.append(lower.as_str(), entry.value.as_str());
        assert(spec_lowercase_names(h.take(i + 1)) =~= spec_lowercase_names(h.take(i as int)).push(
            (crate::text::lower_seq(entry.name@), entry.value@),
        ));
        i = i + 1;
    }
    assert(h.take(headers.entries@.len() as int) =~= h);
    out
}

/// The gRPC `content-type` values of a request, under `content-type`.
pub open spec fn spec_grpc_content_types(h: HeaderSeq) -> HeaderSeq
    decreases h.len(),
{
    if h.len() == 0 {
        Seq::empty()
    } else {
        let rest = spec_grpc_content_types(h.drop_last());
        if name_matches(h.last().0, "content-type"@) && starts_with(h.last().1, "application/grpc"@) {
            rest.push(("content-type"@, h.last().1))
        } else {
            rest
        }
    }
}

pub fn grpc_content_type_headers(headers: &HeaderList) -> (out: HeaderList)
    ensures
        out@ == spec_grpc_content_types(headers@),
{
    let ghost h = headers@;
    let prefix = str_chars("application/grpc");
    let mut out = HeaderList::new();
    let mut i: usize = 0;
    while i < headers.entries.len()
        invariant
            i <= headers.entries@.len(),
            h == headers@,
            h.len() == headers.entries@.len(),
            prefix@ == "application/grpc"@,
            out@ == spec_grpc_content_types(h.take(i as int)),
        decreases headers.entries@.len() - i,
    {
        assert(h.take(i + 1).drop_last() =~= h.take(i as int));
        assert(h.take(i + 1).last() == h[i as int]);
        let entry = &headers.entries[i];
        assert(h[i as int] == (entry.name@, entry.value@));
        let value = str_chars(entry.value.as_str());
        if str_eq_ignore_case(entry.name.as_str(), "content-type") && chars_starts_with(
            value.as_slice(),
            prefix.as_slice(),
        ) {
            out.append("content-type", entry.value.as_str());
        }
        i = i + 1;
    }
    assert(h.take(headers.entries@.len() as int) =~= h);
    out
}

/// What route selection gets: host (header, else authority), port, path and
/// query, method, the client address, and either all headers (lowercase
/// names) or only the gRPC content types.
pub fn selection_request_meta(
    host_header: Option<&str>,
    uri_authority: Option<&str>,
    port: u32,
    path_and_query: &str,
    method: &str,
    headers: &HeaderList,
    source_ip: Option<String>,
    materialize_headers: bool,
) -> (meta: crate::ir::RequestMeta)
    ensures
        meta.port == port,
        meta.path@ == path_and_query@,
        meta.method@ == method@,
        meta.source_ip == source_ip,
        match host_header {
            Some(h) => meta.host is Some && meta.host->0@ == h@,
            None => match uri_authority {
                Some(a) => meta.host is Some && meta.host->0@ == a@,
                None => meta.host is None,
            },
        },
        materialize_headers ==> meta.headers@ == spec_lowercase_names(headers@),
        !materialize_headers ==> meta.headers@ == spec_grpc_content_types(headers@),
{
    let selected_headers = if materialize_headers {
        request_headers(headers)
    } else {
        grpc_content_type_headers(headers)
    };
    crate::ir::RequestMeta {
        host: request_host_value(host_header, uri_authority),
        port,
        path: copy_str(path_and_query),
        method: copy_str(method),
        headers: selected_headers,
        source_ip,
    }
}

} // verus!
