//! The decisions of the request and response phases: early rejections, the
//! order in which route filters run, the local answers each of them can
//! give, and what an upstream response leads to.
use crate::headers::{first_value, HeaderList, HeaderSeq};
use crate::text::{chars_range, chars_starts_with, copy_str, starts_with, str_chars, string_from_chars};
use vstd::prelude::*;

verus! {

/// A request answered by the gateway itself: status and response flag.
#[derive(Debug, Clone, PartialEq, Eq)]
pub struct LocalAnswer {
    pub status: u16,
    pub flag: String,
}

/// The outcome of the checks made before a route is selected.
#[derive(Debug, Clone, PartialEq, Eq)]
pub enum EarlyDecision {
    /// Go on to route selection.
    Continue,
    /// A mirrored copy of a request: send it to its backend as it is.
    MirrorSubrequest,
    /// Answer locally.
    Reject(LocalAnswer),
}

pub open spec fn spec_early_decision(
    misdirected: bool,
    mirror_subrequest: bool,
    max_header_bytes: usize,
    header_bytes: usize,
    max_body_bytes: usize,
    declared_body_bytes: usize,
    has_body: bool,
) -> Option<(u16, Seq<char>)> {
    if misdirected {
        Some((421u16, "MR"@))
    } else if mirror_subrequest {
        None
    } else if max_header_bytes > 0 && header_bytes > max_header_bytes {
        Some((431u16, "RH"@))
    } else if max_body_bytes > 0 && declared_body_bytes > max_body_bytes && has_body {
        Some((413u16, "RB"@))
    } else {
        None
    }
}

/// The early checks, in order: a misdirected HTTPS request gets 421 (MR);
/// a mirror subrequest goes straight upstream; a head over the header limit
/// gets 431 (RH); a body declared over the body limit gets 413 (RB). A zero
/// limit means none.
pub fn early_request_decision(
    misdirected: bool,
    mirror_subrequest: bool,
    max_header_bytes: usize,
    header_bytes: usize,
    max_body_bytes: usize,
    declared_body_bytes: usize,
    has_body: bool,
) -> (decision: EarlyDecision)
    ensures
        match decision {
            EarlyDecision::Reject(a) => spec_early_decision(
                misdirected,
                mirror_subrequest,
                max_header_bytes,
                header_bytes,
                max_body_bytes,
                declared_body_bytes,
                has_body,
            ) == Some((a.status, a.flag@)),
            EarlyDecision::MirrorSubrequest => !misdirected && mirror_subrequest,
            EarlyDecision::Continue => !mirror_subrequest && spec_early_decision(
                misdirected,
                mirror_subrequest,
                max_header_bytes,
                header_bytes,
                max_body_bytes,
                declared_body_bytes,
                has_body,
            ) is None,
        },
{
    if misdirected {
        return EarlyDecision::Reject(LocalAnswer { status: 421, flag: copy_str("MR") });
    }
    if mirror_subrequest {
        return EarlyDecision::MirrorSubrequest;
    }
    if max_header_bytes > 0 && header_bytes > max_header_bytes {
        return EarlyDecision::Reject(LocalAnswer { status: 431, flag: copy_str("RH") });
    }
    if max_body_bytes > 0 && declared_body_bytes > max_body_bytes && has_body {
        return EarlyDecision::Reject(LocalAnswer { status: 413, flag: copy_str("RB") });
    }
    EarlyDecision::Continue
}

/// The stages an HTTP route's request passes through, in this order.
#[derive(Debug, Clone, Copy, PartialEq, Eq)]
pub enum FilterStage {
    CorsPreflight,
    DirectResponse,
    Redirect,
    IpFilter,
    Oidc,
    BasicAuth,
    Jwt,
    ExternalAuth,
    SelectBackend,
    Wasm,
    AiGateway,
}

pub open spec fn stage_index(stage: FilterStage) -> int {
    match stage {
        FilterStage::CorsPreflight => 0,
        FilterStage::DirectResponse => 1,
        FilterStage::Redirect => 2,
        FilterStage::IpFilter => 3,
        FilterStage::Oidc => 4,
        FilterStage::BasicAuth => 5,
        FilterStage::Jwt => 6,
        FilterStage::ExternalAuth => 7,
        FilterStage::SelectBackend => 8,
        FilterStage::Wasm => 9,
        FilterStage::AiGateway => 10,
    }
}

/// What a stage reports back.
#[derive(Debug, Clone, Copy, PartialEq, Eq)]
pub enum StageOutcome {
    /// The request goes on.
    Pass,
    /// The stage wrote a response (or failed): the request ends here.
    Answered,
}

/// What happens next.
#[derive(Debug, Clone, Copy, PartialEq, Eq)]
pub enum FlowStep {
    Run(FilterStage),
    /// Every stage passed: proxy the request upstream.
    Proxy,
    /// A stage answered: stop.
    Done,
}

pub open spec fn spec_stage_after(stage: FilterStage) -> Option<FilterStage> {
    match stage {
        FilterStage::CorsPreflight => Some(FilterStage::DirectResponse),
        FilterStage::DirectResponse => Some(FilterStage::Redirect),
        FilterStage::Redirect => Some(FilterStage::IpFilter),
        FilterStage::IpFilter => Some(FilterStage::Oidc),
        FilterStage::Oidc => Some(FilterStage::BasicAuth),
        FilterStage::BasicAuth => Some(FilterStage::Jwt),
        FilterStage::Jwt => Some(FilterStage::ExternalAuth),
        FilterStage::ExternalAuth => Some(FilterStage::SelectBackend),
        FilterStage::SelectBackend => Some(FilterStage::Wasm),
        FilterStage::Wasm => Some(FilterStage::AiGateway),
        FilterStage::AiGateway => None,
    }
}

/// The first stage of a selected HTTP route.
pub fn first_filter_stage() -> (step: FlowStep)
    ensures
        step == FlowStep::Run(FilterStage::CorsPreflight),
{
    FlowStep::Run(FilterStage::CorsPreflight)
}

/// The step after `stage` reported `outcome`.
pub fn next_flow_step(stage: FilterStage, outcome: StageOutcome) -> (step: FlowStep)
    ensures
        outcome == StageOutcome::Answered ==> step == FlowStep::Done,
        outcome == StageOutcome::Pass ==> step == match spec_stage_after(stage) {
            Some(s) => FlowStep::Run(s),
            None => FlowStep::Proxy,
        },
{
    if let StageOutcome::Answered = outcome {
        return FlowStep::Done;
    }
    match stage {
        FilterStage::CorsPreflight => FlowStep::Run(FilterStage::DirectResponse),
        FilterStage::DirectResponse => FlowStep::Run(FilterStage::Redirect),
        FilterStage::Redirect => FlowStep::Run(FilterStage::IpFilter),
        FilterStage::IpFilter => FlowStep::Run(FilterStage::Oidc),
        FilterStage::Oidc => FlowStep::Run(FilterStage::BasicAuth),
        FilterStage::BasicAuth => FlowStep::Run(FilterStage::Jwt),
        FilterStage::Jwt => FlowStep::Run(FilterStage::ExternalAuth),
        FilterStage::ExternalAuth => FlowStep::Run(FilterStage::SelectBackend),
        FilterStage::SelectBackend => FlowStep::Run(FilterStage::Wasm),
        FilterStage::Wasm => FlowStep::Run(FilterStage::AiGateway),
        FilterStage::AiGateway => FlowStep::Proxy,
    }
}

/// Stages run in strictly increasing order, so each runs at most once and
/// the walk ends after at most eleven stages.
pub proof fn lemma_stages_advance(stage: FilterStage)
    ensures
        match spec_stage_after(stage) {
            Some(next) => stage_index(next) == stage_index(stage) + 1,
            None => stage_index(stage) == 10,
        },
        0 <= stage_index(stage) <= 10,
{
}

/// What the external authorization stage ran into.
#[derive(Debug, Clone, PartialEq, Eq)]
pub enum ExternalAuthEvent {
    /// The authorization service's backend could not be resolved.
    EndpointMissing,
    /// The forwarded body passed the configured maximum.
    BodyTooLarge,
    /// Reading the body failed.
    BodyReadFailed,
    /// The service could not be asked.
    CallFailed,
    /// The service refused the request with this status.
    Denied(u16),
    /// The service allowed the request.
    Allowed,
}

/// The local answer for each way external authorization stops a request,
/// all flagged EA: 500 for a missing endpoint, a failed read or call, 413
/// for a body over the limit, and the service's own status for a denial.
pub fn external_auth_answer(event: &ExternalAuthEvent) -> (answer: Option<LocalAnswer>)
    ensures
        match *event {
            ExternalAuthEvent::Allowed => answer is None,
            ExternalAuthEvent::BodyTooLarge => answer is Some && answer->0.status == 413
                && answer->0.flag@ == "EA"@,
            ExternalAuthEvent::Denied(s) => answer is Some && answer->0.status == s
                && answer->0.flag@ == "EA"@,
            _ => answer is Some && answer->0.status == 500 && answer->0.flag@ == "EA"@,
        },
{
    match event {
        ExternalAuthEvent::Allowed => None,
        ExternalAuthEvent::BodyTooLarge => Some(LocalAnswer { status: 413, flag: copy_str("EA") }),
        ExternalAuthEvent::Denied(s) => Some(LocalAnswer { status: *s, flag: copy_str("EA") }),
        _ => Some(LocalAnswer { status: 500, flag: copy_str("EA") }),
    }
}

/// The body size limit of external authorization: set and positive.
pub fn external_auth_body_limit(forward_body_max_size: Option<u64>) -> (limit: Option<u64>)
    ensures
        limit == match forward_body_max_size {
            Some(s) => if s > 0 {
                Some(s)
            } else {
                None
            },
            None => None,
        },
{
    match forward_body_max_size {
        Some(s) => if s > 0 {
            Some(s)
        } else {
            None
        },
        None => None,
    }
}

/// Whether the body buffered so far passes the external authorization limit.
pub fn external_auth_body_exceeded(buffered_len: usize, limit: u64) -> (exceeded: bool)
    ensures
        exceeded == (buffered_len > limit),
{
    buffered_len as u64 > limit
}

/// The status a rejecting WASM plugin's code becomes: clamped to 400..=599.
pub fn wasm_rejection_status(code: i32) -> (status: u16)
    ensures
        status == (if code < 400 {
            400
        } else if code > 599 {
            599
        } else {
            code as int
        }),
{
    if code < 400 {
        400
    } else if code > 599 {
        599
    } else {
        code as u16
    }
}

/// What the AI gateway stage ran into.
#[derive(Debug, Clone, Copy, PartialEq, Eq)]
pub enum AiGatewayEvent {
    /// The buffered request body passed the limit.
    BodyTooLarge,
    /// Reading the body failed.
    BodyReadFailed,
    /// The route is not an AI route; the stage does nothing.
    UnsupportedFormat,
    /// Pre-processing failed for another reason.
    Failed,
    /// Pre-processing succeeded.
    Processed,
}

/// 413 (RB) for an oversized body, 500 (AR) for a failed read or
/// pre-processing, nothing otherwise.
pub fn ai_gateway_answer(event: AiGatewayEvent) -> (answer: Option<LocalAnswer>)
    ensures
        match event {
            AiGatewayEvent::BodyTooLarge => answer is Some && answer->0.status == 413
                && answer->0.flag@ == "RB"@,
            AiGatewayEvent::BodyReadFailed | AiGatewayEvent::Failed => answer is Some
                && answer->0.status == 500 && answer->0.flag@ == "AR"@,
            _ => answer is None,
        },
{
    match event {
        AiGatewayEvent::BodyTooLarge => Some(LocalAnswer { status: 413, flag: copy_str("RB") }),
        AiGatewayEvent::BodyReadFailed | AiGatewayEvent::Failed => Some(
            LocalAnswer { status: 500, flag: copy_str("AR") },
        ),
        _ => None,
    }
}

/// Whether the AI gateway stage ends the request: every answer it gives
/// rejects the request (an oversized body, a failed read, a failed
/// pre-processing); a non-AI route or a processed request goes on.
pub fn ai_gateway_stops(event: AiGatewayEvent) -> (stops: bool)
    ensures
        stops == (event == AiGatewayEvent::BodyTooLarge || event == AiGatewayEvent::BodyReadFailed
            || event == AiGatewayEvent::Failed),
{
    match event {
        AiGatewayEvent::BodyTooLarge | AiGatewayEvent::BodyReadFailed | AiGatewayEvent::Failed => true,
        _ => false,
    }
}

/// The API key the AI gateway bills: the token of `authorization: Bearer`,
/// else the `x-api-key` header.
pub open spec fn spec_ai_api_key(h: HeaderSeq) -> Option<Seq<char>> {
    let bearer = match first_value(h, "authorization"@) {
        Some(v) => if starts_with(v, "Bearer "@) {
            Some(v.subrange(7, v.len() as int))
        } else {
            None
        },
        None => None,
    };
    match bearer {
        Some(k) => Some(k),
        None => first_value(h, "x-api-key"@),
    }
}

pub fn ai_api_key(headers: &HeaderList) -> (key: Option<String>)
    ensures
        match key {
            Some(k) => spec_ai_api_key(headers@) == Some(k@),
            None => spec_ai_api_key(headers@) is None,
        },
{
    proof {
        reveal_strlit("Bearer ");
    }
    if let Some(v) = headers.get("authorization") {
        let chars = str_chars(v.as_str());
        let prefix = str_chars("Bearer ");
        if chars_starts_with(chars.as_slice(), prefix.as_slice()) {
            let rest = chars_range(chars.as_slice(), 7, chars.len());
            return Some(string_from_chars(rest.as_slice()));
        }
    }
    headers.get("x-api-key")
}

/// The HTTP versions a request can arrive with.
#[derive(Debug, Clone, Copy, PartialEq, Eq)]
pub enum HttpVersion {
    Http09,
    Http10,
    Http11,
    Http2,
    Http3,
    Other,
}

/// The version label of the access log.
pub fn http_version_label(version: HttpVersion) -> (label: String)
    ensures
        label@ == match version {
            HttpVersion::Http09 => "HTTP/0.9"@,
            HttpVersion::Http10 => "HTTP/1.0"@,
            HttpVersion::Http11 => "HTTP/1.1"@,
            HttpVersion::Http2 => "HTTP/2.0"@,
            HttpVersion::Http3 => "HTTP/3.0"@,
            HttpVersion::Other => "HTTP/?"@,
        },
{
    match version {
        HttpVersion::Http09 => copy_str("HTTP/0.9"),
        HttpVersion::Http10 => copy_str("HTTP/1.0"),
        HttpVersion::Http11 => copy_str("HTTP/1.1"),
        HttpVersion::Http2 => copy_str("HTTP/2.0"),
        HttpVersion::Http3 => copy_str("HTTP/3.0"),
        HttpVersion::Other => copy_str("HTTP/?"),
    }
}

/// The answer to a request no route matched (flag NR): gRPC requests get
/// status 200 with `content-type: application/grpc` and `grpc-status: 12`
/// (unimplemented) as trailer; others a 404 with body `route not found`.
#[derive(Debug, Clone, PartialEq, Eq)]
pub struct NoRouteAnswer {
    pub status: u16,
    pub content_type: Option<String>,
    pub grpc_status: Option<String>,
    pub body: Option<String>,
    pub flag: String,
}

pub fn no_route_answer(is_grpc: bool) -> (answer: NoRouteAnswer)
    ensures
        answer.flag@ == "NR"@,
        is_grpc ==> answer.status == 200 && answer.content_type is Some
            && answer.content_type->0@ == "application/grpc"@ && answer.grpc_status is Some
            && answer.grpc_status->0@ == "12"@ && answer.body is None,
        !is_grpc ==> answer.status == 404 && answer.content_type is None
            && answer.grpc_status is None && answer.body is Some && answer.body->0@
            == "route not found"@,
{
    if is_grpc {
        NoRouteAnswer {
            status: 200,
            content_type: Some(copy_str("application/grpc")),
            grpc_status: Some(copy_str("12")),
            body: None,
            flag: copy_str("NR"),
        }
    } else {
        NoRouteAnswer {
            status: 404,
            content_type: None,
            grpc_status: None,
            body: Some(copy_str("route not found")),
            flag: copy_str("NR"),
        }
    }
}

/// What the response phase does with an upstream response head.
#[derive(Debug, Clone, Copy, PartialEq, Eq)]
pub struct UpstreamResponsePlan {
    /// The response counts as a backend failure (5xx).
    pub backend_failed: bool,
    /// The response is answered by a retry: `Some(true)` when a retry was
    /// prepared, `Some(false)` when retries are exhausted.
    pub retry: Option<bool>,
    /// The response may be stored in the active cache (else caching stops).
    pub cache_candidate: bool,
}

pub fn upstream_response_plan(status: u16, retryable: bool, retry_prepared: bool, cache_active: bool) -> (plan:
    UpstreamResponsePlan)
    ensures
        plan.backend_failed == (status >= 500),
        plan.retry == (if retryable {
            Some(retry_prepared)
        } else {
            None
        }),
        plan.cache_candidate == (!retryable && cache_active && status < 500 && (status < 300
            || status == 404)),
{
    let retry = if retryable {
        Some(retry_prepared)
    } else {
        None
    };
    let cache_candidate = !retryable && cache_active && crate::cache::response_status_may_be_cached(
        status,
    );
    UpstreamResponsePlan { backend_failed: status >= 500, retry, cache_candidate }
}

/// Whether a request may take the fast path: nothing needs the full request
/// (tracing, all headers, or the client address).
pub fn fast_path_request_features_are_safe(
    request_tracing_enabled: bool,
    request_headers_required: bool,
    request_source_ip_required: bool,
) -> (safe: bool)
    ensures
        safe == (!request_tracing_enabled && !request_headers_required && !request_source_ip_required),
{
    !request_tracing_enabled && !request_headers_required && !request_source_ip_required
}

/// The body limit of a request: the route policy's when it sets one, else
/// the listener's.
pub fn effective_max_request_body_bytes(route_limit: Option<usize>, listener_limit: usize) -> (limit:
    usize)
    ensures
        limit == match route_limit {
            Some(l) => l,
            None => listener_limit,
        },
{
    match route_limit {
        Some(l) => l,
        None => listener_limit,
    }
}

/// Whether a downstream connection has reached its maximum age (both in
/// nanoseconds) and must not be kept alive; HTTP/2 connections are left
/// alone, as are connections whose age is unknown.
pub fn max_connection_age_reached(max_age: Option<u128>, http2: bool, age: Option<u128>) -> (reached:
    bool)
    ensures
        reached == (max_age is Some && !http2 && age is Some && age->0 >= max_age->0),
{
    let max_age = match max_age {
        Some(m) => m,
        None => return false,
    };
    if http2 {
        return false;
    }
    match age {
        Some(a) => a >= max_age,
        None => false,
    }
}

/// A connection closed for lack of a required client certificate is
/// recorded as 499 with flag DC.
pub fn missing_client_certificate_answer() -> (answer: LocalAnswer)
    ensures
        answer.status == 499,
        answer.flag@ == "DC"@,
{
    LocalAnswer { status: 499, flag: copy_str("DC") }
}

/// Selections tried before a transport retry settles for an excluded
/// endpoint.
pub const TRANSPORT_RETRY_ENDPOINT_SELECTION_ATTEMPTS: usize = 8;

/// The state of choosing a backend for a transport retry.
#[derive(Debug, Clone, Copy, PartialEq, Eq)]
pub struct RetrySelection {
    pub attempts_left: usize,
    pub has_last_resort: bool,
}

/// What to do with a candidate the balancer offered.
#[derive(Debug, Clone, Copy, PartialEq, Eq)]
pub enum RetrySelectionStep {
    /// The candidate is not excluded: use it.
    UseCandidate,
    /// Ask the balancer again; keep this candidate as the last resort first
    /// when told to.
    Retry { keep_candidate: bool },
    /// Attempts are used up: use the last resort (this candidate when told
    /// to keep it).
    UseLastResort { keep_candidate: bool },
    /// The balancer has nothing: no backend.
    NoBackend,
}

/// At least eight attempts, and one more than the endpoints excluded.
pub fn begin_retry_selection(excluded_count: usize) -> (selection: RetrySelection)
    ensures
        selection.attempts_left == (if excluded_count == usize::MAX {
            usize::MAX as int
        } else if excluded_count + 1 > TRANSPORT_RETRY_ENDPOINT_SELECTION_ATTEMPTS {
            excluded_count + 1
        } else {
            TRANSPORT_RETRY_ENDPOINT_SELECTION_ATTEMPTS as int
        }),
        !selection.has_last_resort,
        selection.attempts_left > 0,
{
    let wanted = excluded_count.saturating_add(1);
    let attempts = if wanted > TRANSPORT_RETRY_ENDPOINT_SELECTION_ATTEMPTS {
        wanted
    } else {
        TRANSPORT_RETRY_ENDPOINT_SELECTION_ATTEMPTS
    };
    RetrySelection { attempts_left: attempts, has_last_resort: false }
}

/// One round of retry selection: a candidate that is not excluded is used;
/// the first excluded one is kept as the last resort; when attempts run
/// out the last resort is used.
pub fn retry_selection_step(
    selection: &mut RetrySelection,
    candidate: Option<&crate::context::ExcludedEndpoint>,
    excluded: &[crate::context::ExcludedEndpoint],
) -> (step: RetrySelectionStep)
    requires
        old(selection).attempts_left > 0,
    ensures
        match candidate {
            None => step == RetrySelectionStep::NoBackend && *final(selection) == *old(selection),
            Some(c) => if !crate::context::spec_is_excluded(excluded@, *c) {
                step == RetrySelectionStep::UseCandidate && *final(selection) == *old(selection)
            } else {
                &&& final(selection).has_last_resort
                &&& final(selection).attempts_left == old(selection).attempts_left - 1
                &&& if final(selection).attempts_left == 0 {
                    step == RetrySelectionStep::UseLastResort {
                        keep_candidate: !old(selection).has_last_resort,
                    }
                } else {
                    step == RetrySelectionStep::Retry {
                        keep_candidate: !old(selection).has_last_resort,
                    }
                }
            },
        },
{
    let c = match candidate {
        Some(c) => c,
        None => return RetrySelectionStep::NoBackend,
    };
    if !crate::context::is_transport_retry_excluded(excluded, c) {
        return RetrySelectionStep::UseCandidate;
    }
    let keep = !selection.has_last_resort;
    selection.has_last_resort = true;
    selection.attempts_left = selection.attempts_left - 1;
    if selection.attempts_left == 0 {
        RetrySelectionStep::UseLastResort { keep_candidate: keep }
    } else {
        RetrySelectionStep::Retry { keep_candidate: keep }
    }
}

/// The positions of the mirrors kept after a body chunk: those whose
/// forwarding succeeded, in order.
pub open spec fn spec_kept_positions(forwarded: Seq<bool>) -> Seq<usize>
    decreases forwarded.len(),
{
    if forwarded.len() == 0 {
        Seq::empty()
    } else {
        let rest = spec_kept_positions(forwarded.drop_last());
        if forwarded.last() {
            rest.push((forwarded.len() - 1) as usize)
        } else {
            rest
        }
    }
}

/// Which mirrors stay attached after a body chunk, by position.
pub fn kept_mirror_positions(forwarded: &[bool]) -> (kept: Vec<usize>)
    ensures
        kept@ == spec_kept_positions(forwarded@),
{
    let mut kept: Vec<usize> = Vec::new();
    let mut i: usize = 0;
    while i < forwarded.len()
        invariant
            i <= forwarded@.len(),
            kept@ == spec_kept_positions(forwarded@.take(i as int)),
        decreases forwarded@.len() - i,
    {
        assert(forwarded@.take(i + 1).drop_last() =~= forwarded@.take(i as int));
        if forwarded[i] {
            kept.push(i);
        }
        i = i + 1;
    }
    assert(forwarded@.take(forwarded@.len() as int) =~= forwarded@);
    kept
}

/// Records a downstream body chunk and answers 413 (RB) when it takes the
/// body past the limit in force (zero means none); mirror subrequests are
/// neither counted nor limited.
pub fn request_body_chunk_answer(
    record: &mut crate::context::RequestRecord,
    chunk_len: usize,
    limit: usize,
) -> (answer: Option<LocalAnswer>)
    ensures
        old(record).is_mirror_subrequest ==> answer is None && final(record).bytes_received == old(
            record,
        ).bytes_received && final(record).request_body_bytes_seen == old(
            record,
        ).request_body_bytes_seen,
        !old(record).is_mirror_subrequest ==> final(record).bytes_received == (if old(
            record,
        ).bytes_received + chunk_len > usize::MAX {
            usize::MAX as int
        } else {
            old(record).bytes_received + chunk_len
        }) && final(record).request_body_bytes_seen == (if old(record).request_body_bytes_seen
            + chunk_len > usize::MAX {
            usize::MAX as int
        } else {
            old(record).request_body_bytes_seen + chunk_len
        }) && (answer is Some <==> (limit > 0 && final(record).request_body_bytes_seen > limit)),
        answer is Some ==> answer->0.status == 413 && answer->0.flag@ == "RB"@
            && final(record).response_flags@ == "RB"@,
        answer is None ==> final(record).response_flags@ == old(record).response_flags@,
{
    if record.record_request_body_chunk(chunk_len, limit) {
        Some(LocalAnswer { status: 413, flag: copy_str("RB") })
    } else {
        None
    }
}

} // verus!
