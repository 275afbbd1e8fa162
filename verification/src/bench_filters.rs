//! The filter-chain benchmark: request and response header modifiers with
//! generated header names, run once over a request and a response head.
use vstd::prelude::*;

use crate::bench::{FilterChainBenchConfig, FilterChainStep};
use crate::filter_chain::{
    apply_request_filters, apply_response_filters, spec_request_filters,
    spec_request_filters_error, spec_response_filters, spec_response_filters_error, RequestHead,
};
use crate::headers::{first_value, inserted, HeaderList, HeaderSeq};
use crate::ir::{Filter, HeaderModifier, HeaderOperation, MatchedHttpPath};
use crate::text::{copy_str, decimal, push_decimal, push_str_chars};

verus! {

/// `x-{side}-{op}-{i}-{j}`.
pub open spec fn spec_bench_name(side: Seq<char>, op: Seq<char>, i: nat, j: nat) -> Seq<char> {
    "x-"@ + side + "-"@ + op + "-"@ + decimal(i) + "-"@ + decimal(j)
}

/// `{op}-{i}-{j}`.
pub open spec fn spec_bench_value(op: Seq<char>, i: nat, j: nat) -> Seq<char> {
    op + "-"@ + decimal(i) + "-"@ + decimal(j)
}

fn bench_name(side: &str, op: &str, i: usize, j: usize) -> (out: String)
    ensures
        out@ == spec_bench_name(side@, op@, i as nat, j as nat),
{
    let mut s = copy_str("x-");
    push_str_chars(&mut s, side);
    push_str_chars(&mut s, "-");
    push_str_chars(&mut s, op);
    push_str_chars(&mut s, "-");
    push_decimal(&mut s, i as u64);
    push_str_chars(&mut s, "-");
    push_decimal(&mut s, j as u64);
    s
}

fn bench_value(op: &str, i: usize, j: usize) -> (out: String)
    ensures
        out@ == spec_bench_value(op@, i as nat, j as nat),
{
    let mut s = copy_str(op);
    push_str_chars(&mut s, "-");
    push_decimal(&mut s, i as u64);
    push_str_chars(&mut s, "-");
    push_decimal(&mut s, j as u64);
    s
}

/// Filter `i` of a benchmark chain: a header modifier of type `filter_type`
/// that sets, adds and removes `n` generated headers each.
pub open spec fn spec_bench_filter(f: Filter, side: Seq<char>, filter_type: Seq<char>, i: nat, n: nat) -> bool {
    &&& f.filter_type@ == filter_type
    &&& f.header_modifier is Some
    &&& f.request_redirect is None && f.url_rewrite is None && f.request_mirror is None
    &&& f.cors is None && f.external_auth is None && f.extension_ref is None && f.jwt_auth is None
    &&& {
        let m = f.header_modifier->0;
        &&& m.set@.len() == n && m.add@.len() == n && m.remove@.len() == n
        &&& forall|j: int|
            0 <= j < n ==> (#[trigger] m.set@[j]).name@ == spec_bench_name(side, "set"@, i, j as nat)
                && m.set@[j].value@ == spec_bench_value("set"@, i, j as nat)
        &&& forall|j: int|
            0 <= j < n ==> (#[trigger] m.add@[j]).name@ == spec_bench_name(side, "add"@, i, j as nat)
                && m.add@[j].value@ == spec_bench_value("add"@, i, j as nat)
        &&& forall|j: int|
            0 <= j < n ==> (#[trigger] m.remove@[j])@ == spec_bench_name(
                side,
                "remove"@,
                i,
                j as nat,
            )
    }
}

fn bench_operations(side: &str, op: &str, i: usize, n: usize) -> (ops: Vec<HeaderOperation>)
    ensures
        ops@.len() == n,
        forall|j: int|
            0 <= j < n ==> (#[trigger] ops@[j]).name@ == spec_bench_name(side@, op@, i as nat, j as nat)
                && ops@[j].value@ == spec_bench_value(op@, i as nat, j as nat),
{
    let mut ops: Vec<HeaderOperation> = Vec::new();
    let mut j: usize = 0;
    while j < n
        invariant
            j <= n,
            ops@.len() == j,
            forall|k: int|
                0 <= k < j ==> (#[trigger] ops@[k]).name@ == spec_bench_name(
                    side@,
                    op@,
                    i as nat,
                    k as nat,
                ) && ops@[k].value@ == spec_bench_value(op@, i as nat, k as nat),
        decreases n - j,
    {
        ops.push(HeaderOperation { name: bench_name(side, op, i, j), value: bench_value(op, i, j) });
        j = j + 1;
    }
    ops
}

fn bench_filter(side: &str, filter_type: &str, i: usize, n: usize) -> (f: Filter)
    ensures
        spec_bench_filter(f, side@, filter_type@, i as nat, n as nat),
{
    let set = bench_operations(side, "set", i, n);
    let add = bench_operations(side, "add", i, n);
    let mut remove: Vec<String> = Vec::new();
    let mut j: usize = 0;
    while j < n
        invariant
            j <= n,
            remove@.len() == j,
            forall|k: int|
                0 <= k < j ==> (#[trigger] remove@[k])@ == spec_bench_name(
                    side@,
                    "remove"@,
                    i as nat,
                    k as nat,
                ),
        decreases n - j,
    {
        remove.push(bench_name(side, "remove", i, j));
        j = j + 1;
    }
    Filter {
        filter_type: copy_str(filter_type),
        header_modifier: Some(HeaderModifier { set, add, remove }),
        request_redirect: None,
        url_rewrite: None,
        request_mirror: None,
        cors: None,
        external_auth: None,
        extension_ref: None,
        jwt_auth: None,
    }
}

fn bench_filters(side: &str, filter_type: &str, count: usize, n: usize) -> (filters: Vec<Filter>)
    ensures
        filters@.len() == count,
        forall|k: int|
            0 <= k < count ==> spec_bench_filter(
                #[trigger] filters@[k],
                side@,
                filter_type@,
                k as nat,
                n as nat,
            ),
{
    let mut filters: Vec<Filter> = Vec::new();
    let mut i: usize = 0;
    while i < count
        invariant
            i <= count,
            filters@.len() == i,
            forall|k: int|
                0 <= k < i ==> spec_bench_filter(
                    #[trigger] filters@[k],
                    side@,
                    filter_type@,
                    k as nat,
                    n as nat,
                ),
        decreases count - i,
    {
        filters.push(bench_filter(side, filter_type, i, n));
        i = i + 1;
    }
    filters
}

/// The filter chains of the benchmark and the path match they run under.
pub struct FilterChainFixture {
    request_filters: Vec<Filter>,
    response_filters: Vec<Filter>,
    matched_http_path: MatchedHttpPath,
}

/// At least one.
pub open spec fn at_least_one(n: usize) -> nat {
    if n == 0 {
        1
    } else {
        n as nat
    }
}

/// How many removable fields filter `f` asks the benchmark to put in place.
pub open spec fn spec_remove_count(f: Filter) -> nat {
    match f.header_modifier {
        Some(m) => m.remove@.len(),
        None => 0,
    }
}

/// `h` with `drop-me` fields named as filter `i`'s first `count` removals.
pub open spec fn spec_with_removables_of(h: HeaderSeq, side: Seq<char>, i: nat, count: nat) -> HeaderSeq
    decreases count,
{
    if count == 0 {
        h
    } else {
        inserted(
            spec_with_removables_of(h, side, i, (count - 1) as nat),
            spec_bench_name(side, "remove"@, i, (count - 1) as nat),
            "drop-me"@,
        )
    }
}

/// `h` with the removable fields of every filter, in order.
pub open spec fn spec_with_removables(h: HeaderSeq, side: Seq<char>, filters: Seq<Filter>) -> HeaderSeq
    decreases filters.len(),
{
    if filters.len() == 0 {
        h
    } else {
        spec_with_removables_of(
            spec_with_removables(h, side, filters.drop_last()),
            side,
            (filters.len() - 1) as nat,
            spec_remove_count(filters.last()),
        )
    }
}

fn insert_removables(headers: &mut HeaderList, side: &str, filters: &[Filter])
    ensures
        final(headers)@ == spec_with_removables(old(headers)@, side@, filters@),
{
    let ghost start = headers@;
    let mut i: usize = 0;
    while i < filters.len()
        invariant
            i <= filters@.len(),
            headers@ == spec_with_removables(start, side@, filters@.take(i as int)),
        decreases filters@.len() - i,
    {
        assert(filters@.take(i + 1).drop_last() =~= filters@.take(i as int));
        assert(filters@.take(i + 1).last() == filters@[i as int]);
        let count = match &filters[i].header_modifier {
            Some(m) => m.remove.len(),
            None => 0,
        };
        let ghost base = headers@;
        let mut j: usize = 0;
        while j < count
            invariant
                j <= count,
                headers@ == spec_with_removables_of(base, side@, i as nat, j as nat),
            decreases count - j,
        {
            let name = bench_name(side, "remove", i, j);
            headers.insert(name.as_str(), "drop-me");
            j = j + 1;
        }
        i = i + 1;
    }
    assert(filters@.take(filters@.len() as int) =~= filters@);
}

/// What one pass of the benchmark gives: the header counts of the request
/// and response heads after their filters, and the first set header of each;
/// `None` when a filter refuses its fields or a marker is missing.
pub open spec fn spec_filter_chain_step(
    request_filters: Seq<Filter>,
    response_filters: Seq<Filter>,
    matched: MatchedHttpPath,
) -> Option<(nat, nat, Seq<char>, Seq<char>)> {
    if spec_request_filters_error(request_filters) is Some || spec_response_filters_error(
        response_filters,
    ) is Some {
        None
    } else {
        let request = spec_request_filters(
            "/bench/items"@,
            spec_with_removables(seq![("host"@, "bench.example.com"@)], "request"@, request_filters),
            request_filters,
            Some(matched),
        ).1;
        let response = spec_response_filters(
            spec_with_removables(Seq::empty(), "response"@, response_filters),
            response_filters,
            None,
            None,
        );
        match (first_value(request, "x-request-set-0-0"@), first_value(response, "x-response-set-0-0"@)) {
            (Some(a), Some(b)) => Some((request.len(), response.len(), a, b)),
            _ => None,
        }
    }
}

impl FilterChainFixture {
    pub closed spec fn request_filters(&self) -> Seq<Filter> {
        self.request_filters@
    }

    pub closed spec fn response_filters(&self) -> Seq<Filter> {
        self.response_filters@
    }

    pub closed spec fn matched_http_path(&self) -> MatchedHttpPath {
        self.matched_http_path
    }

    /// Chains of request and response header modifiers (at least one each),
    /// each setting, adding and removing at least one generated header, for a
    /// `PathPrefix` match of `/bench`.
    pub fn build(config: FilterChainBenchConfig) -> (fixture: Self)
        ensures
            fixture.request_filters().len() == at_least_one(config.request_filters),
            fixture.response_filters().len() == at_least_one(config.response_filters),
            forall|k: int|
                0 <= k < fixture.request_filters().len() ==> spec_bench_filter(
                    #[trigger] fixture.request_filters()[k],
                    "request"@,
                    "RequestHeaderModifier"@,
                    k as nat,
                    at_least_one(config.header_ops_per_filter),
                ),
            forall|k: int|
                0 <= k < fixture.response_filters().len() ==> spec_bench_filter(
                    #[trigger] fixture.response_filters()[k],
                    "response"@,
                    "ResponseHeaderModifier"@,
                    k as nat,
                    at_least_one(config.header_ops_per_filter),
                ),
            fixture.matched_http_path().path@ == "/bench"@,
            fixture.matched_http_path().path_type@ == "PathPrefix"@,
    {
        let ops = if config.header_ops_per_filter == 0 {
            1
        } else {
            config.header_ops_per_filter
        };
        let requests = if config.request_filters == 0 {
            1
        } else {
            config.request_filters
        };
        let responses = if config.response_filters == 0 {
            1
        } else {
            config.response_filters
        };
        FilterChainFixture {
            request_filters: bench_filters("request", "RequestHeaderModifier", requests, ops),
            response_filters: bench_filters("response", "ResponseHeaderModifier", responses, ops),
            matched_http_path: MatchedHttpPath {
                path: copy_str("/bench"),
                path_type: copy_str("PathPrefix"),
            },
        }
    }

    /// Runs the chains once: a `GET /bench/items?id=1` request for
    /// `bench.example.com` and an empty response, each first given the fields
    /// its filters remove.
    pub fn apply(&self) -> (out: Result<FilterChainStep, String>)
        ensures
            match spec_filter_chain_step(
                self.request_filters(),
                self.response_filters(),
                self.matched_http_path(),
            ) {
                Some((requests, responses, a, b)) => out is Ok && out->Ok_0.request_header_count
                    == requests && out->Ok_0.response_header_count == responses
                    && out->Ok_0.request_marker@ == a && out->Ok_0.response_marker@ == b,
                None => out is Err,
            },
    {
        let mut headers = HeaderList::new();
        headers.insert("host", "bench.example.com");
        assert(headers@ =~= seq![("host"@, "bench.example.com"@)]) by {
            assert(crate::headers::without(Seq::<(Seq<char>, Seq<char>)>::empty(), "host"@)
                =~= Seq::<(Seq<char>, Seq<char>)>::empty());
        }
        insert_removables(&mut headers, "request", self.request_filters.as_slice());
        let mut request = RequestHead {
            path: copy_str("/bench/items"),
            query: Some(copy_str("id=1")),
            headers,
        };
        if apply_request_filters(
            &mut request,
            self.request_filters.as_slice(),
            Some(&self.matched_http_path),
        ).is_err() {
            return Err(copy_str("applying request header benchmark filters"));
        }
        let mut response = HeaderList::new();
        insert_removables(&mut response, "response", self.response_filters.as_slice());
        if apply_response_filters(&mut response, self.response_filters.as_slice(), None, None).is_err() {
            return Err(copy_str("applying response header benchmark filters"));
        }
        let request_marker = match request.headers.get("x-request-set-0-0") {
            Some(v) => v,
            None => return Err(copy_str("missing benchmark header value for request marker")),
        };
        let response_marker = match response.get("x-response-set-0-0") {
            Some(v) => v,
            None => return Err(copy_str("missing benchmark header value for response marker")),
        };
        Ok(FilterChainStep {
            request_header_count: request.headers.len(),
            response_header_count: response.len(),
            request_marker,
            response_marker,
        })
    }
}

} // verus!
