//! The header-modifier and URL-rewrite filters of a route, applied in order
//! to the request head, and the response-side filters (header modifiers and
//! CORS) applied to the response head.
use vstd::prelude::*;

use crate::cors::{apply_cors_filter, spec_apply_cors};
use crate::extensions::{lemma_first_invalid_prefix, spec_apply_operations, spec_first_invalid_operation};
use crate::external_auth::{header_name_is_valid, header_value_is_valid, spec_valid_header_value};
use crate::filters::{rewrite_path_and_query, spec_rewritten_path};
use crate::headers::{inserted, without, HeaderList, HeaderSeq};
use crate::ir::{Filter, HeaderModifier, HeaderOperation, MatchedHttpPath};
use crate::response::GatewayError;
use crate::text::{copy_str, str_eq};

verus! {

/// `h` with every operation's field appended, in order.
pub open spec fn spec_add_all(h: HeaderSeq, ops: Seq<HeaderOperation>) -> HeaderSeq
    decreases ops.len(),
{
    if ops.len() == 0 {
        h
    } else {
        spec_add_all(h, ops.drop_last()).push((ops.last().name@, ops.last().value@))
    }
}

/// `h` without any field of the listed names.
pub open spec fn spec_remove_all(h: HeaderSeq, names: Seq<String>) -> HeaderSeq
    decreases names.len(),
{
    if names.len() == 0 {
        h
    } else {
        without(spec_remove_all(h, names.drop_last()), names.last()@)
    }
}

/// A header modifier applied: its `set` fields replace those of their names,
/// its `add` fields are appended, then its `remove` names are dropped.
pub open spec fn spec_apply_modifier(h: HeaderSeq, m: HeaderModifier) -> HeaderSeq {
    spec_remove_all(spec_add_all(spec_apply_operations(h, m.set@), m.add@), m.remove@)
}

/// The first field of a modifier (its `set` ones, then its `add` ones)
/// whose name or value is not valid HTTP.
pub open spec fn spec_modifier_error(m: HeaderModifier) -> Option<Seq<char>> {
    match spec_first_invalid_operation(m.set@) {
        Some(n) => Some(n),
        None => spec_first_invalid_operation(m.add@),
    }
}

/// The name of the first operation whose name or value is not valid HTTP.
fn first_invalid_operation(ops: &[HeaderOperation]) -> (out: Option<String>)
    ensures
        match out {
            Some(n) => spec_first_invalid_operation(ops@) == Some(n@),
            None => spec_first_invalid_operation(ops@) is None,
        },
{
    let mut i: usize = 0;
    while i < ops.len()
        invariant
            i <= ops@.len(),
            spec_first_invalid_operation(ops@.take(i as int)) is None,
        decreases ops@.len() - i,
    {
        assert(ops@.take(i + 1).drop_last() =~= ops@.take(i as int));
        assert(ops@.take(i + 1).last() == ops@[i as int]);
        let name_ok = header_name_is_valid(ops[i].name.as_str());
        let value_ok = header_value_is_valid(ops[i].value.as_str());
        if !name_ok || !value_ok {
            proof {
                lemma_first_invalid_prefix(ops@, i + 1);
            }
            return Some(copy_str(ops[i].name.as_str()));
        }
        i = i + 1;
    }
    assert(ops@.take(ops@.len() as int) =~= ops@);
    None
}

fn modifier_error(m: &HeaderModifier) -> (out: Option<String>)
    ensures
        match out {
            Some(n) => spec_modifier_error(*m) == Some(n@),
            None => spec_modifier_error(*m) is None,
        },
{
    match first_invalid_operation(m.set.as_slice()) {
        Some(n) => Some(n),
        None => first_invalid_operation(m.add.as_slice()),
    }
}

/// Applies a header modifier to a header list: sets, then adds, then
/// removes. A field whose name or value is not valid HTTP makes it an error
/// naming that field, and the headers are left as they were.
pub fn apply_header_modifier(headers: &mut HeaderList, modifier: &HeaderModifier) -> (out: Result<
    (),
    GatewayError,
>)
    ensures
        match spec_modifier_error(*modifier) {
            Some(n) => out is Err && out->Err_0 == GatewayError::InvalidHeader(
                out->Err_0->InvalidHeader_0,
            ) && out->Err_0->InvalidHeader_0@ == n && final(headers)@ == old(headers)@,
            None => out is Ok && final(headers)@ == spec_apply_modifier(old(headers)@, *modifier),
        },
{
    if let Some(n) = modifier_error(modifier) {
        return Err(GatewayError::InvalidHeader(n));
    }
    let ghost start = headers@;
    let mut i: usize = 0;
    while i < modifier.set.len()
        invariant
            i <= modifier.set@.len(),
            headers@ == spec_apply_operations(start, modifier.set@.take(i as int)),
        decreases modifier.set@.len() - i,
    {
        assert(modifier.set@.take(i + 1).drop_last() =~= modifier.set@.take(i as int));
        headers.insert(modifier.set[i].name.as_str(), modifier.set[i].value.as_str());
        i = i + 1;
    }
    assert(modifier.set@.take(modifier.set@.len() as int) =~= modifier.set@);
    let ghost after_set = headers@;
    let mut j: usize = 0;
    while j < modifier.add.len()
        invariant
            j <= modifier.add@.len(),
            headers@ == spec_add_all(after_set, modifier.add@.take(j as int)),
        decreases modifier.add@.len() - j,
    {
        assert(modifier.add@.take(j + 1).drop_last() =~= modifier.add@.take(j as int));
        headers.append(modifier.add[j].name.as_str(), modifier.add[j].value.as_str());
        j = j + 1;
    }
    assert(modifier.add@.take(modifier.add@.len() as int) =~= modifier.add@);
    let ghost after_add = headers@;
    let mut k: usize = 0;
    while k < modifier.remove.len()
        invariant
            k <= modifier.remove@.len(),
            headers@ == spec_remove_all(after_add, modifier.remove@.take(k as int)),
        decreases modifier.remove@.len() - k,
    {
        assert(modifier.remove@.take(k + 1).drop_last() =~= modifier.remove@.take(k as int));
        headers.remove(modifier.remove[k].as_str());
        k = k + 1;
    }
    assert(modifier.remove@.take(modifier.remove@.len() as int) =~= modifier.remove@);
    Ok(())
}

/// The head of a request as the filters see it.
#[derive(Debug)]
pub struct RequestHead {
    pub path: String,
    pub query: Option<String>,
    pub headers: HeaderList,
}

/// Whether a filter acts on the request head: a request header modifier or
/// a URL rewrite that carries its settings.
pub open spec fn spec_request_modifier(f: Filter) -> bool {
    f.filter_type@ == "RequestHeaderModifier"@ && f.header_modifier is Some
}

pub open spec fn spec_url_rewrite(f: Filter) -> bool {
    f.filter_type@ == "URLRewrite"@ && f.url_rewrite is Some
}

/// The request head (path and headers) after the request filters, in order:
/// header modifiers change the headers; a URL rewrite sets `host` to its
/// hostname when it has one and rewrites the path with its path modifier.
pub open spec fn spec_request_filters(
    path: Seq<char>,
    h: HeaderSeq,
    filters: Seq<Filter>,
    matched: Option<MatchedHttpPath>,
) -> (Seq<char>, HeaderSeq)
    decreases filters.len(),
{
    if filters.len() == 0 {
        (path, h)
    } else {
        let prev = spec_request_filters(path, h, filters.drop_last(), matched);
        let f = filters.last();
        if spec_request_modifier(f) {
            (prev.0, spec_apply_modifier(prev.1, f.header_modifier->0))
        } else if spec_url_rewrite(f) {
            let u = f.url_rewrite->0;
            let h2 = if u.hostname@.len() > 0 {
                inserted(prev.1, "host"@, u.hostname@)
            } else {
                prev.1
            };
            let p2 = match u.path {
                Some(m) => spec_rewritten_path(prev.0, m, matched),
                None => prev.0,
            };
            (p2, h2)
        } else {
            prev
        }
    }
}

/// The first field the request filters would write that is not valid HTTP.
pub open spec fn spec_request_filters_error(filters: Seq<Filter>) -> Option<Seq<char>>
    decreases filters.len(),
{
    if filters.len() == 0 {
        None
    } else {
        match spec_request_filters_error(filters.drop_last()) {
            Some(n) => Some(n),
            None => {
                let f = filters.last();
                if spec_request_modifier(f) {
                    spec_modifier_error(f.header_modifier->0)
                } else if spec_url_rewrite(f) && f.url_rewrite->0.hostname@.len() > 0
                    && !spec_valid_header_value(f.url_rewrite->0.hostname@) {
                    Some("host"@)
                } else {
                    None
                }
            },
        }
    }
}

proof fn lemma_request_error_prefix(filters: Seq<Filter>, k: int)
    requires
        0 <= k <= filters.len(),
        spec_request_filters_error(filters.take(k)) is Some,
    ensures
        spec_request_filters_error(filters) == spec_request_filters_error(filters.take(k)),
    decreases filters.len() - k,
{
    if k < filters.len() {
        assert(filters.take(k + 1).drop_last() =~= filters.take(k));
        lemma_request_error_prefix(filters, k + 1);
    } else {
        assert(filters.take(k) =~= filters);
    }
}

fn request_filters_error(filters: &[Filter]) -> (out: Option<String>)
    ensures
        match out {
            Some(n) => spec_request_filters_error(filters@) == Some(n@),
            None => spec_request_filters_error(filters@) is None,
        },
{
    let mut i: usize = 0;
    while i < filters.len()
        invariant
            i <= filters@.len(),
            spec_request_filters_error(filters@.take(i as int)) is None,
        decreases filters@.len() - i,
    {
        assert(filters@.take(i + 1).drop_last() =~= filters@.take(i as int));
        assert(filters@.take(i + 1).last() == filters@[i as int]);
        let f = &filters[i];
        proof {
            reveal_strlit("RequestHeaderModifier");
            reveal_strlit("URLRewrite");
            assert("RequestHeaderModifier"@.len() != "URLRewrite"@.len());
        }
        let mut found: Option<String> = None;
        if str_eq(f.filter_type.as_str(), "RequestHeaderModifier") {
            if let Some(m) = &f.header_modifier {
                found = modifier_error(m);
            }
        } else if str_eq(f.filter_type.as_str(), "URLRewrite") {
            if let Some(u) = &f.url_rewrite {
                if !u.hostname.as_str().is_empty() && !header_value_is_valid(u.hostname.as_str()) {
                    found = Some(copy_str("host"));
                }
            }
        }
        if let Some(n) = found {
            proof {
                lemma_request_error_prefix(filters@, i + 1);
            }
            return Some(n);
        }
        i = i + 1;
    }
    assert(filters@.take(filters@.len() as int) =~= filters@);
    None
}

/// Applies the request filters of a route to the request head, in order. A
/// field that is not valid HTTP makes it an error naming that field, and the
/// head is left as it was.
pub fn apply_request_filters(
    request: &mut RequestHead,
    filters: &[Filter],
    matched: Option<&MatchedHttpPath>,
) -> (out: Result<(), GatewayError>)
    ensures
        match spec_request_filters_error(filters@) {
            Some(n) => out is Err && out->Err_0 is InvalidHeader && out->Err_0->InvalidHeader_0@
                == n && final(request).path@ == old(request).path@ && final(request).headers@
                == old(request).headers@,
            None => out is Ok && (final(request).path@, final(request).headers@)
                == spec_request_filters(
                old(request).path@,
                old(request).headers@,
                filters@,
                match matched {
                    Some(m) => Some(*m),
                    None => None,
                },
            ),
        },
        final(request).query == old(request).query,
{
    if let Some(n) = request_filters_error(filters) {
        return Err(GatewayError::InvalidHeader(n));
    }
    let ghost m_spec = match matched {
        Some(m) => Some(*m),
        None => None,
    };
    let ghost start_path = request.path@;
    let ghost start_headers = request.headers@;
    let mut i: usize = 0;
    while i < filters.len()
        invariant
            i <= filters@.len(),
            spec_request_filters_error(filters@) is None,
            m_spec == (match matched {
                Some(m) => Some(*m),
                None => None,
            }),
            (request.path@, request.headers@) == spec_request_filters(
                start_path,
                start_headers,
                filters@.take(i as int),
                m_spec,
            ),
            request.query == old(request).query,
        decreases filters@.len() - i,
    {
        assert(filters@.take(i + 1).drop_last() =~= filters@.take(i as int));
        assert(filters@.take(i + 1).last() == filters@[i as int]);
        proof {
            lemma_no_request_error_prefix(filters@, i + 1);
        }
        let f = &filters[i];
        if str_eq(f.filter_type.as_str(), "RequestHeaderModifier") && f.header_modifier.is_some() {
            match &f.header_modifier {
                Some(m) => {
                    let _ = apply_header_modifier(&mut request.headers, m);
                },
                None => {},
            }
        } else if str_eq(f.filter_type.as_str(), "URLRewrite") && f.url_rewrite.is_some() {
            match &f.url_rewrite {
                Some(u) => {
                    if !u.hostname.as_str().is_empty() {
                        request.headers.insert("host", u.hostname.as_str());
                    }
                    if let Some(pm) = &u.path {
                        let rewritten = rewrite_path_and_query(
                            request.path.as_str(),
                            None,
                            pm,
                            matched,
                        );
                        assert(rewritten@ =~= spec_rewritten_path(
                            spec_request_filters(
                                start_path,
                                start_headers,
                                filters@.take(i as int),
                                m_spec,
                            ).0,
                            *pm,
                            m_spec,
                        ));
                        request.path = rewritten;
                    }
                },
                None => {},
            }
        }
        i = i + 1;
    }
    assert(filters@.take(filters@.len() as int) =~= filters@);
    Ok(())
}

/// No error in the whole list means none in any prefix.
proof fn lemma_no_request_error_prefix(filters: Seq<Filter>, k: int)
    requires
        0 <= k <= filters.len(),
        spec_request_filters_error(filters) is None,
    ensures
        spec_request_filters_error(filters.take(k)) is None,
{
    if spec_request_filters_error(filters.take(k)) is Some {
        lemma_request_error_prefix(filters, k);
    }
}

/// Whether a filter acts on the response head: a response header modifier,
/// or a CORS policy, that carries its settings.
pub open spec fn spec_response_modifier(f: Filter) -> bool {
    f.filter_type@ == "ResponseHeaderModifier"@ && f.header_modifier is Some
}

pub open spec fn spec_cors_policy(f: Filter) -> bool {
    f.filter_type@ == "CORS"@ && f.cors is Some
}

/// The response head after the response filters, in order: response header
/// modifiers change it and CORS policies answer the request's origin; the
/// other filters leave it alone.
pub open spec fn spec_response_filters(
    h: HeaderSeq,
    filters: Seq<Filter>,
    method: Option<Seq<char>>,
    request: Option<HeaderSeq>,
) -> HeaderSeq
    decreases filters.len(),
{
    if filters.len() == 0 {
        h
    } else {
        let prev = spec_response_filters(h, filters.drop_last(), method, request);
        let f = filters.last();
        if spec_response_modifier(f) {
            spec_apply_modifier(prev, f.header_modifier->0)
        } else if spec_cors_policy(f) {
            spec_apply_cors(prev, f.cors->0, method, request)
        } else {
            prev
        }
    }
}

/// The first field a response header modifier would write that is not
/// valid HTTP.
pub open spec fn spec_response_filters_error(filters: Seq<Filter>) -> Option<Seq<char>>
    decreases filters.len(),
{
    if filters.len() == 0 {
        None
    } else {
        match spec_response_filters_error(filters.drop_last()) {
            Some(n) => Some(n),
            None => if spec_response_modifier(filters.last()) {
                spec_modifier_error(filters.last().header_modifier->0)
            } else {
                None
            },
        }
    }
}

proof fn lemma_response_error_prefix(filters: Seq<Filter>, k: int)
    requires
        0 <= k <= filters.len(),
        spec_response_filters_error(filters.take(k)) is Some,
    ensures
        spec_response_filters_error(filters) == spec_response_filters_error(filters.take(k)),
    decreases filters.len() - k,
{
    if k < filters.len() {
        assert(filters.take(k + 1).drop_last() =~= filters.take(k));
        lemma_response_error_prefix(filters, k + 1);
    } else {
        assert(filters.take(k) =~= filters);
    }
}

fn response_filters_error(filters: &[Filter]) -> (out: Option<String>)
    ensures
        match out {
            Some(n) => spec_response_filters_error(filters@) == Some(n@),
            None => spec_response_filters_error(filters@) is None,
        },
{
    let mut i: usize = 0;
    while i < filters.len()
        invariant
            i <= filters@.len(),
            spec_response_filters_error(filters@.take(i as int)) is None,
        decreases filters@.len() - i,
    {
        assert(filters@.take(i + 1).drop_last() =~= filters@.take(i as int));
        assert(filters@.take(i + 1).last() == filters@[i as int]);
        let f = &filters[i];
        let mut found: Option<String> = None;
        if str_eq(f.filter_type.as_str(), "ResponseHeaderModifier") {
            if let Some(m) = &f.header_modifier {
                found = modifier_error(m);
            }
        }
        if let Some(n) = found {
            proof {
                lemma_response_error_prefix(filters@, i + 1);
            }
            return Some(n);
        }
        i = i + 1;
    }
    assert(filters@.take(filters@.len() as int) =~= filters@);
    None
}

/// Applies the response filters of a route to the response head, in order:
/// response header modifiers, and CORS policies for the request's method and
/// headers. A field that is not valid HTTP makes it an error naming that
/// field, and the head is left as it was.
pub fn apply_response_filters(
    response: &mut HeaderList,
    filters: &[Filter],
    request_method: Option<&str>,
    request_headers: Option<&HeaderList>,
) -> (out: Result<(), GatewayError>)
    ensures
        match spec_response_filters_error(filters@) {
            Some(n) => out is Err && out->Err_0 is InvalidHeader && out->Err_0->InvalidHeader_0@
                == n && final(response)@ == old(response)@,
            None => out is Ok && final(response)@ == spec_response_filters(
                old(response)@,
                filters@,
                match request_method {
                    Some(m) => Some(m@),
                    None => None,
                },
                match request_headers {
                    Some(h) => Some(h@),
                    None => None,
                },
            ),
        },
{
    if let Some(n) = response_filters_error(filters) {
        return Err(GatewayError::InvalidHeader(n));
    }
    let ghost method = match request_method {
        Some(m) => Some(m@),
        None => None,
    };
    let ghost request = match request_headers {
        Some(h) => Some(h@),
        None => None,
    };
    let ghost start = response@;
    let mut i: usize = 0;
    while i < filters.len()
        invariant
            i <= filters@.len(),
            spec_response_filters_error(filters@) is None,
            method == (match request_method {
                Some(m) => Some(m@),
                None => None,
            }),
            request == (match request_headers {
                Some(h) => Some(h@),
                None => None,
            }),
            response@ == spec_response_filters(start, filters@.take(i as int), method, request),
        decreases filters@.len() - i,
    {
        assert(filters@.take(i + 1).drop_last() =~= filters@.take(i as int));
        assert(filters@.take(i + 1).last() == filters@[i as int]);
        proof {
            if spec_response_filters_error(filters@.take(i + 1)) is Some {
                lemma_response_error_prefix(filters@, i + 1);
            }
            reveal_strlit("ResponseHeaderModifier");
            reveal_strlit("CORS");
            assert("ResponseHeaderModifier"@.len() != "CORS"@.len());
        }
        let f = &filters[i];
        if str_eq(f.filter_type.as_str(), "ResponseHeaderModifier") && f.header_modifier.is_some() {
            match &f.header_modifier {
                Some(m) => {
                    let _ = apply_header_modifier(response, m);
                },
                None => {},
            }
        } else if str_eq(f.filter_type.as_str(), "CORS") && f.cors.is_some() {
            match &f.cors {
                Some(c) => apply_cors_filter(response, c, request_method, request_headers),
                None => {},
            }
        }
        i = i + 1;
    }
    assert(filters@.take(filters@.len() as int) =~= filters@);
    Ok(())
}

} // verus!
