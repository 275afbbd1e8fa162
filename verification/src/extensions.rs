//! Extension filters: a route may answer requests itself with a direct
//! response.
use vstd::prelude::*;

use crate::headers::{inserted, HeaderList, HeaderSeq};
use crate::ir::{DirectResponseFilter, ExtensionFilter, Filter, HeaderOperation};
use crate::response::{GatewayError, HttpResponse};
use crate::external_auth::{
    header_name_is_valid, header_value_is_valid, spec_valid_header_name, spec_valid_header_value,
};
use crate::text::{copy_str, decimal, decimal_string, str_eq};

verus! {

/// A status code in 100..=599 is kept; any other becomes 500.
pub open spec fn spec_normalize_status_code(code: u16) -> u16 {
    if 100 <= code <= 599 {
        code
    } else {
        500
    }
}

/// The gateway supports a resolved `DirectResponse` extension that holds a
/// direct response.
pub open spec fn spec_extension_filter_supported(e: ExtensionFilter) -> bool {
    e.resolved && e.extension_type@ == "DirectResponse"@ && e.direct_response is Some
}

/// The direct response of a filter: a resolved `DirectResponse` extension.
pub open spec fn spec_direct_response_of(f: Filter) -> Option<DirectResponseFilter> {
    match f.extension_ref {
        Some(e) => if e.resolved && e.extension_type@ == "DirectResponse"@ {
            e.direct_response
        } else {
            None
        },
        None => None,
    }
}

/// The direct response of the first filter that has one.
pub fn direct_response_filter(filters: &[Filter]) -> (out: Option<&DirectResponseFilter>)
    ensures
        match out {
            Some(r) => exists|i: int|
                0 <= i < filters@.len() && spec_direct_response_of(filters@[i]) == Some(*r) && forall|
                    j: int,
                | 0 <= j < i ==> spec_direct_response_of(filters@[j]) is None,
            None => forall|i: int| 0 <= i < filters@.len() ==> spec_direct_response_of(filters@[i]) is None,
        },
{
    let mut i: usize = 0;
    while i < filters.len()
        invariant
            i <= filters@.len(),
            forall|j: int| 0 <= j < i ==> spec_direct_response_of(filters@[j]) is None,
        decreases filters@.len() - i,
    {
        if let Some(e) = &filters[i].extension_ref {
            if e.resolved && str_eq(e.extension_type.as_str(), "DirectResponse") {
                if let Some(r) = &e.direct_response {
                    return Some(r);
                }
            }
        }
        i = i + 1;
    }
    None
}

/// True when every extension reference among the filters is supported.
pub fn extension_filters_supported(filters: &[Filter]) -> (out: bool)
    ensures
        out == forall|i: int|
            0 <= i < filters@.len() ==> match #[trigger] filters@[i].extension_ref {
                Some(e) => spec_extension_filter_supported(e),
                None => true,
            },
{
    let mut i: usize = 0;
    while i < filters.len()
        invariant
            i <= filters@.len(),
            forall|j: int|
                0 <= j < i ==> match #[trigger] filters@[j].extension_ref {
                    Some(e) => spec_extension_filter_supported(e),
                    None => true,
                },
        decreases filters@.len() - i,
    {
        if let Some(e) = &filters[i].extension_ref {
            if !extension_filter_supported(e) {
                return false;
            }
        }
        i = i + 1;
    }
    true
}

/// True for a resolved `DirectResponse` extension with a direct response.
pub fn extension_filter_supported(filter: &ExtensionFilter) -> (out: bool)
    ensures
        out == spec_extension_filter_supported(*filter),
{
    filter.resolved && str_eq(filter.extension_type.as_str(), "DirectResponse")
        && filter.direct_response.is_some()
}

/// A status code in 100..=599, else 500.
pub fn normalize_status_code(status_code: u16) -> (out: u16)
    ensures
        out == spec_normalize_status_code(status_code),
        100 <= out <= 599,
{
    if 100 <= status_code && status_code <= 599 {
        status_code
    } else {
        500
    }
}

/// The headers of a direct response after its configured operations.
pub open spec fn spec_apply_operations(h: HeaderSeq, ops: Seq<HeaderOperation>) -> HeaderSeq
    decreases ops.len(),
{
    if ops.len() == 0 {
        h
    } else {
        inserted(spec_apply_operations(h, ops.drop_last()), ops.last().name@, ops.last().value@)
    }
}

/// The headers of a direct response: its configured headers set in order,
/// then, with a body, `content-type` (when configured) and `content-length`
/// of the body, and without one `content-length: 0`.
pub open spec fn spec_direct_response_headers(filter: DirectResponseFilter) -> HeaderSeq {
    let h = spec_apply_operations(Seq::empty(), filter.headers@);
    if filter.body@.len() > 0 {
        let h2 = if filter.content_type@.len() > 0 {
            inserted(h, "content-type"@, filter.content_type@)
        } else {
            h
        };
        inserted(h2, "content-length"@, decimal((vstd::utf8::encode_utf8(filter.body@).len() as usize) as nat))
    } else {
        inserted(h, "content-length"@, "0"@)
    }
}

/// The name of the first configured header whose name or value is not
/// valid HTTP, in order.
pub open spec fn spec_first_invalid_operation(ops: Seq<HeaderOperation>) -> Option<Seq<char>>
    decreases ops.len(),
{
    if ops.len() == 0 {
        None
    } else {
        match spec_first_invalid_operation(ops.drop_last()) {
            Some(n) => Some(n),
            None => if !spec_valid_header_name(ops.last().name@) || !spec_valid_header_value(
                ops.last().value@,
            ) {
                Some(ops.last().name@)
            } else {
                None
            },
        }
    }
}

/// Why a direct response cannot be built: a configured header that is not
/// valid HTTP, else a content type that is not a valid header value (it is
/// only set when there is a body).
pub open spec fn spec_direct_response_error(filter: DirectResponseFilter) -> Option<Seq<char>> {
    match spec_first_invalid_operation(filter.headers@) {
        Some(n) => Some(n),
        None => if filter.body@.len() > 0 && filter.content_type@.len() > 0
            && !spec_valid_header_value(filter.content_type@) {
            Some("content-type"@)
        } else {
            None
        },
    }
}

/// A direct response: its status normalised into 100..=599, its headers, and
/// its body when the body is not empty. A configured header (or content
/// type) that is not valid HTTP makes it an error naming that header.
pub fn build_direct_response(filter: &DirectResponseFilter) -> (out: Result<
    (HttpResponse, Option<String>),
    GatewayError,
>)
    ensures
        match out {
            Ok((response, body)) => {
                &&& spec_direct_response_error(*filter) is None
                &&& response.status == spec_normalize_status_code(filter.status_code)
                &&& response.headers@ == spec_direct_response_headers(*filter)
                &&& match body {
                    Some(b) => filter.body@.len() > 0 && b@ == filter.body@,
                    None => filter.body@.len() == 0,
                }
            },
            Err(e) => spec_direct_response_error(*filter) is Some && e is InvalidHeader
                && e->InvalidHeader_0@ == spec_direct_response_error(*filter)->0,
        },
{
    let status = normalize_status_code(filter.status_code);
    let has_body = !filter.body.as_str().is_empty();
    let mut headers = HeaderList::new();
    let mut i: usize = 0;
    while i < filter.headers.len()
        invariant
            i <= filter.headers@.len(),
            headers@ == spec_apply_operations(Seq::empty(), filter.headers@.take(i as int)),
            spec_first_invalid_operation(filter.headers@.take(i as int)) is None,
        decreases filter.headers@.len() - i,
    {
        assert(filter.headers@.take(i + 1).drop_last() =~= filter.headers@.take(i as int));
        assert(filter.headers@.take(i + 1).last() == filter.headers@[i as int]);
        let op = &filter.headers[i];
        let name_ok = header_name_is_valid(op.name.as_str());
        let value_ok = header_value_is_valid(op.value.as_str());
        if !name_ok || !value_ok {
            proof {
                lemma_first_invalid_prefix(filter.headers@, i as int + 1);
            }
            return Err(GatewayError::InvalidHeader(copy_str(op.name.as_str())));
        }
        headers.insert(op.name.as_str(), op.value.as_str());
        i = i + 1;
    }
    assert(filter.headers@.take(filter.headers@.len() as int) =~= filter.headers@);
    if has_body {
        if !filter.content_type.as_str().is_empty() {
            if !header_value_is_valid(filter.content_type.as_str()) {
                return Err(GatewayError::InvalidHeader(copy_str("content-type")));
            }
            headers.insert("content-type", filter.content_type.as_str());
        }
        let len = decimal_string(filter.body.as_str().len() as u64);
        headers.insert("content-length", len.as_str());
        Ok((HttpResponse { status, headers }, Some(filter.body.clone())))
    } else {
        headers.insert("content-length", "0");
        Ok((HttpResponse { status, headers }, None))
    }
}

/// A header found invalid in a prefix is the first invalid one of the list.
pub proof fn lemma_first_invalid_prefix(ops: Seq<HeaderOperation>, k: int)
    requires
        0 <= k <= ops.len(),
        spec_first_invalid_operation(ops.take(k)) is Some,
    ensures
        spec_first_invalid_operation(ops) == spec_first_invalid_operation(ops.take(k)),
    decreases ops.len() - k,
{
    if k < ops.len() {
        assert(ops.take(k + 1).drop_last() =~= ops.take(k));
        lemma_first_invalid_prefix(ops, k + 1);
    } else {
        assert(ops.take(k) =~= ops);
    }
}

/// Normalizing a status code twice changes nothing more.
pub proof fn lemma_normalize_status_code_idempotent(code: u16)
    ensures
        spec_normalize_status_code(spec_normalize_status_code(code)) == spec_normalize_status_code(
            code,
        ),
        100 <= spec_normalize_status_code(code) <= 599,
{
}

} // verus!
