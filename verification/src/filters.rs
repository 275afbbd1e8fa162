//! Finding filters of a given kind among a route's filters, checking that a
//! gateway supports them, and the redirect response.
use vstd::prelude::*;

use crate::extensions::{extension_filters_supported, spec_extension_filter_supported};
use crate::headers::{inserted, HeaderList, HeaderSeq};
use crate::ir::{
    CorsFilter, ExternalAuthFilter, Filter, JwtAuthFilter, MatchedHttpPath, PathModifier,
    RequestRedirectFilter,
};
use crate::response::{build_response, valid_status, GatewayError, HttpResponse};
use crate::text::{
    chars_range, chars_starts_with, eq_ignore_case, push_chars, push_str_chars, starts_with,
    str_chars, str_eq, str_eq_ignore_case,
};

verus! {

/// Index of the first filter with a request redirect.
pub open spec fn first_redirect_index(filters: Seq<Filter>) -> Option<int> {
    if exists|i: int| 0 <= i < filters.len() && filters[i].request_redirect is Some {
        Some(
            choose|i: int|
                0 <= i < filters.len() && filters[i].request_redirect is Some && forall|j: int|
                    0 <= j < i ==> filters[j].request_redirect is None,
        )
    } else {
        None
    }
}

/// The request redirect of the first filter that has one.
pub fn request_redirect_filter(filters: &[Filter]) -> (out: Option<&RequestRedirectFilter>)
    ensures
        match out {
            Some(r) => exists|i: int|
                0 <= i < filters@.len() && filters@[i].request_redirect == Some(*r) && forall|j: int|
                    0 <= j < i ==> filters@[j].request_redirect is None,
            None => forall|i: int| 0 <= i < filters@.len() ==> filters@[i].request_redirect is None,
        },
{
    let mut i: usize = 0;
    while i < filters.len()
        invariant
            i <= filters@.len(),
            forall|j: int| 0 <= j < i ==> filters@[j].request_redirect is None,
        decreases filters@.len() - i,
    {
        if let Some(r) = &filters[i].request_redirect {
            return Some(r);
        }
        i = i + 1;
    }
    None
}

/// The external authorization settings of the first filter that has them.
pub fn external_auth_filter(filters: &[Filter]) -> (out: Option<&ExternalAuthFilter>)
    ensures
        match out {
            Some(r) => exists|i: int|
                0 <= i < filters@.len() && filters@[i].external_auth == Some(*r) && forall|j: int|
                    0 <= j < i ==> filters@[j].external_auth is None,
            None => forall|i: int| 0 <= i < filters@.len() ==> filters@[i].external_auth is None,
        },
{
    let mut i: usize = 0;
    while i < filters.len()
        invariant
            i <= filters@.len(),
            forall|j: int| 0 <= j < i ==> filters@[j].external_auth is None,
        decreases filters@.len() - i,
    {
        if let Some(r) = &filters[i].external_auth {
            return Some(r);
        }
        i = i + 1;
    }
    None
}

/// The JWT authentication settings of the first filter that has them.
pub fn jwt_auth_filter(filters: &[Filter]) -> (out: Option<&JwtAuthFilter>)
    ensures
        match out {
            Some(r) => exists|i: int|
                0 <= i < filters@.len() && filters@[i].jwt_auth == Some(*r) && forall|j: int|
                    0 <= j < i ==> filters@[j].jwt_auth is None,
            None => forall|i: int| 0 <= i < filters@.len() ==> filters@[i].jwt_auth is None,
        },
{
    let mut i: usize = 0;
    while i < filters.len()
        invariant
            i <= filters@.len(),
            forall|j: int| 0 <= j < i ==> filters@[j].jwt_auth is None,
        decreases filters@.len() - i,
    {
        if let Some(r) = &filters[i].jwt_auth {
            return Some(r);
        }
        i = i + 1;
    }
    None
}

/// True when some filter mirrors the request.
pub fn route_filters_have_request_mirror(filters: &[Filter]) -> (out: bool)
    ensures
        out == exists|i: int| 0 <= i < filters@.len() && filters@[i].request_mirror is Some,
{
    let mut i: usize = 0;
    while i < filters.len()
        invariant
            i <= filters@.len(),
            forall|j: int| 0 <= j < i ==> filters@[j].request_mirror is None,
        decreases filters@.len() - i,
    {
        if filters[i].request_mirror.is_some() {
            return true;
        }
        i = i + 1;
    }
    false
}

/// True when some filter carries a CORS policy.
pub fn cors_filter_present(filters: &[Filter]) -> (out: bool)
    ensures
        out == exists|i: int| 0 <= i < filters@.len() && filters@[i].cors is Some,
{
    let mut i: usize = 0;
    while i < filters.len()
        invariant
            i <= filters@.len(),
            forall|j: int| 0 <= j < i ==> filters@[j].cors is None,
        decreases filters@.len() - i,
    {
        if filters[i].cors.is_some() {
            return true;
        }
        i = i + 1;
    }
    false
}

/// True when some filter is of type `CORS`: the response filters then read
/// request headers.
pub fn response_filters_need_request_headers(filters: &[Filter]) -> (out: bool)
    ensures
        out == exists|i: int| 0 <= i < filters@.len() && filters@[i].filter_type@ == "CORS"@,
{
    let mut i: usize = 0;
    while i < filters.len()
        invariant
            i <= filters@.len(),
            forall|j: int| 0 <= j < i ==> filters@[j].filter_type@ != "CORS"@,
        decreases filters@.len() - i,
    {
        if str_eq(filters[i].filter_type.as_str(), "CORS") {
            return true;
        }
        i = i + 1;
    }
    false
}

/// Filter types that the gateway applies with no further condition.
pub open spec fn plain_supported_type(t: Seq<char>) -> bool {
    t == "RequestHeaderModifier"@ || t == "ResponseHeaderModifier"@ || t == "RequestRedirect"@ || t
        == "URLRewrite"@ || t == "RequestMirror"@ || t == "CORS"@
}

/// An external authorization filter over HTTP or gRPC.
pub open spec fn spec_external_auth_supported(f: Filter) -> bool {
    match f.external_auth {
        Some(a) => eq_ignore_case(a.protocol@, "HTTP"@) || eq_ignore_case(a.protocol@, "GRPC"@),
        None => true,
    }
}

/// The gateway supports a filter of a known type; an external authorization
/// filter only over HTTP or gRPC, and an extension reference only when it
/// resolved to a supported extension.
pub open spec fn spec_filter_supported(f: Filter) -> bool {
    let t = f.filter_type@;
    plain_supported_type(t) || (t == "ExternalAuth"@ && spec_external_auth_supported(f)) || (t
        == "ExtensionRef"@ && match f.extension_ref {
        Some(e) => spec_extension_filter_supported(e),
        None => false,
    })
}

fn filter_supported(f: &Filter) -> (out: bool)
    ensures
        out == spec_filter_supported(*f),
{
    proof {
        reveal_strlit("ExternalAuth");
        reveal_strlit("ExtensionRef");
        assert("ExternalAuth"@[4] != "ExtensionRef"@[4]);
    }
    let t = f.filter_type.as_str();
    if str_eq(t, "RequestHeaderModifier") || str_eq(t, "ResponseHeaderModifier") || str_eq(
        t,
        "RequestRedirect",
    ) || str_eq(t, "URLRewrite") || str_eq(t, "RequestMirror") || str_eq(t, "CORS") {
        return true;
    }
    if str_eq(t, "ExternalAuth") {
        return match &f.external_auth {
            Some(a) => str_eq_ignore_case(a.protocol.as_str(), "HTTP") || str_eq_ignore_case(
                a.protocol.as_str(),
                "GRPC",
            ),
            None => true,
        };
    }
    if str_eq(t, "ExtensionRef") {
        return match &f.extension_ref {
            Some(e) => crate::extensions::extension_filter_supported(e),
            None => false,
        };
    }
    false
}

/// Refuses a filter list that holds a filter the gateway does not support,
/// naming the first such filter's type.
pub fn ensure_supported_filters(filters: &[Filter]) -> (out: Result<(), GatewayError>)
    ensures
        match out {
            Ok(()) => forall|i: int| 0 <= i < filters@.len() ==> spec_filter_supported(filters@[i]),
            Err(e) => exists|i: int|
                0 <= i < filters@.len() && !spec_filter_supported(filters@[i]) && (forall|j: int|
                    0 <= j < i ==> spec_filter_supported(filters@[j])) && (e matches GatewayError::UnsupportedFilter(t)
                    && t@ == filters@[i].filter_type@),
        },
{
    let mut i: usize = 0;
    while i < filters.len()
        invariant
            i <= filters@.len(),
            forall|j: int| 0 <= j < i ==> spec_filter_supported(filters@[j]),
        decreases filters@.len() - i,
    {
        if !filter_supported(&filters[i]) {
            return Err(GatewayError::UnsupportedFilter(filters[i].filter_type.clone()));
        }
        i = i + 1;
    }
    Ok(())
}

/// A redirect response: the given status and `location`.
pub fn build_redirect_response(status_code: u16, location: &str) -> (out: Result<
    HttpResponse,
    GatewayError,
>)
    ensures
        match out {
            Ok(r) => valid_status(status_code as int) && r.status == status_code && r.headers@
                == inserted(Seq::empty(), "location"@, location@),
            Err(e) => !valid_status(status_code as int) && e == GatewayError::InvalidStatusCode(
                status_code,
            ),
        },
{
    let mut response = build_response(status_code)?;
    response.headers.insert("location", location);
    Ok(response)
}

/// The path after a Gateway API path modifier: `ReplaceFullPath` replaces
/// the whole path; `ReplacePrefixMatch` replaces the matched `PathPrefix`
/// (one slash kept where the replacement's and the rest's meet, `/` for an
/// empty result); otherwise the path stays.
pub open spec fn spec_rewritten_path(
    path: Seq<char>,
    modifier: PathModifier,
    matched: Option<MatchedHttpPath>,
) -> Seq<char> {
    if modifier.modifier_type@ == "ReplaceFullPath"@ {
        modifier.replace_full_path@
    } else if modifier.modifier_type@ == "ReplacePrefixMatch"@ && matched is Some
        && matched->0.path_type@ == "PathPrefix"@ && starts_with(path, matched->0.path@) {
        let rest = path.subrange(matched->0.path@.len() as int, path.len() as int);
        let repl = modifier.replace_prefix_match@;
        let joined = if repl.len() > 0 && repl.last() == '/' && rest.len() > 0 && rest[0] == '/' {
            repl.drop_last() + rest
        } else {
            repl + rest
        };
        if joined.len() == 0 {
            "/"@
        } else {
            joined
        }
    } else {
        path
    }
}

/// The rewritten path followed by `?query` when the request has a query.
pub open spec fn spec_rewrite_path_and_query(
    path: Seq<char>,
    query: Option<Seq<char>>,
    modifier: PathModifier,
    matched: Option<MatchedHttpPath>,
) -> Seq<char> {
    spec_rewritten_path(path, modifier, matched) + match query {
        Some(q) => if q.len() > 0 {
            "?"@ + q
        } else {
            Seq::empty()
        },
        None => Seq::empty(),
    }
}

/// Applies a path modifier to a request path and keeps its query.
pub fn rewrite_path_and_query(
    path: &str,
    query: Option<&str>,
    modifier: &PathModifier,
    matched: Option<&MatchedHttpPath>,
) -> (out: String)
    ensures
        out@ == spec_rewrite_path_and_query(
            path@,
            match query {
                Some(q) => Some(q@),
                None => None,
            },
            *modifier,
            match matched {
                Some(m) => Some(*m),
                None => None,
            },
        ),
{
    let mut out = String::new();
    if str_eq(modifier.modifier_type.as_str(), "ReplaceFullPath") {
        push_str_chars(&mut out, modifier.replace_full_path.as_str());
    } else {
        let mut rewritten = false;
        if str_eq(modifier.modifier_type.as_str(), "ReplacePrefixMatch") {
            if let Some(m) = matched {
                let path_chars = str_chars(path);
                let prefix = str_chars(m.path.as_str());
                if str_eq(m.path_type.as_str(), "PathPrefix") && chars_starts_with(
                    path_chars.as_slice(),
                    prefix.as_slice(),
                ) {
                    let rest = chars_range(path_chars.as_slice(), prefix.len(), path_chars.len());
                    let repl = str_chars(modifier.replace_prefix_match.as_str());
                    let mut joined: Vec<char> = Vec::new();
                    if repl.len() > 0 && repl[repl.len() - 1] == '/' && rest.len() > 0 && rest[0]
                        == '/' {
                        let head = chars_range(repl.as_slice(), 0, repl.len() - 1);
                        assert(head@ =~= repl@.drop_last());
                        joined = head;
                    } else {
                        joined = repl;
                    }
                    let mut i: usize = 0;
                    let ghost base = joined@;
                    while i < rest.len()
                        invariant
                            i <= rest@.len(),
                            joined@ == base + rest@.take(i as int),
                        decreases rest@.len() - i,
                    {
                        joined.push(rest[i]);
                        i = i + 1;
                        assert(joined@ =~= base + rest@.take(i as int));
                    }
                    assert(rest@.take(rest@.len() as int) =~= rest@);
                    if joined.len() == 0 {
                        out.push('/');
                        proof {
                            reveal_strlit("/");
                        }
                        assert(out@ =~= "/"@);
                    } else {
                        push_chars(&mut out, joined.as_slice());
                    }
                    rewritten = true;
                }
            }
        }
        if !rewritten {
            push_str_chars(&mut out, path);
        }
    }
    let ghost path_part = out@;
    if let Some(q) = query {
        if !q.is_empty() {
            push_str_chars(&mut out, "?");
            push_str_chars(&mut out, q);
        } else {
            assert(out@ =~= path_part + Seq::<char>::empty());
        }
    } else {
        assert(out@ =~= path_part + Seq::<char>::empty());
    }
    out
}

} // verus!
