//! What a completed request contributes to traffic statistics and the
//! access log: its route labels, request line and logged header values.
use crate::context::{route_kind_name, spec_route_kind_name, RequestRecord, RouteKind};
use crate::headers::{first_value, HeaderList, HeaderSeq};
use crate::text::{copy_str, eq_ignore_case, push_str_chars};
use vstd::prelude::*;

verus! {

/// The route a request was matched to, as the selection recorded it.
#[derive(Debug, Clone)]
pub struct SelectedRouteLabels {
    pub listener_name: String,
    pub listener_protocol: String,
    pub route_namespace: String,
    pub route_name: String,
    pub route_kind: RouteKind,
    pub backend_name: String,
}

/// The labels statistics and logs carry for a request.
#[derive(Debug, Clone)]
pub struct RequestRouteLabels {
    pub listener_name: String,
    pub listener_protocol: String,
    pub route_namespace: String,
    pub route_name: String,
    pub route_kind: String,
    pub backend_name: String,
}

pub open spec fn labels_of_selected(s: SelectedRouteLabels, l: RequestRouteLabels) -> bool {
    &&& l.listener_name@ == s.listener_name@
    &&& l.listener_protocol@ == s.listener_protocol@
    &&& l.route_namespace@ == s.route_namespace@
    &&& l.route_name@ == s.route_name@
    &&& l.route_kind@ == spec_route_kind_name(s.route_kind)
    &&& l.backend_name@ == s.backend_name@
}

fn labels_from_selected(s: &SelectedRouteLabels) -> (l: RequestRouteLabels)
    ensures
        labels_of_selected(*s, l),
{
    RequestRouteLabels {
        listener_name: copy_str(s.listener_name.as_str()),
        listener_protocol: copy_str(s.listener_protocol.as_str()),
        route_namespace: copy_str(s.route_namespace.as_str()),
        route_name: copy_str(s.route_name.as_str()),
        route_kind: route_kind_name(s.route_kind),
        backend_name: copy_str(s.backend_name.as_str()),
    }
}

/// The labels of a request: from the selected backend, else from the
/// fast-path selection, else from what the record holds.
pub fn request_route_labels(
    selected: Option<&SelectedRouteLabels>,
    fast_selected: Option<&SelectedRouteLabels>,
    record: &RequestRecord,
) -> (labels: RequestRouteLabels)
    ensures
        match selected {
            Some(s) => labels_of_selected(*s, labels),
            None => match fast_selected {
                Some(f) => labels_of_selected(*f, labels),
                None => labels.listener_name@ == record.listener_name@
                    && labels.listener_protocol@ == record.listener_protocol@
                    && labels.route_namespace@ == record.route_namespace@ && labels.route_name@
                    == record.route_name@ && labels.route_kind@ == record.route_kind@
                    && labels.backend_name@ == record.backend@,
            },
        },
{
    if let Some(s) = selected {
        return labels_from_selected(s);
    }
    if let Some(f) = fast_selected {
        return labels_from_selected(f);
    }
    RequestRouteLabels {
        listener_name: copy_str(record.listener_name.as_str()),
        listener_protocol: copy_str(record.listener_protocol.as_str()),
        route_namespace: copy_str(record.route_namespace.as_str()),
        route_name: copy_str(record.route_name.as_str()),
        route_kind: copy_str(record.route_kind.as_str()),
        backend_name: copy_str(record.backend.as_str()),
    }
}

impl RequestRouteLabels {
    /// The protocol label: the listener's, else GRPC for gRPC routes and
    /// HTTP otherwise.
    pub fn effective_protocol(&self) -> (protocol: String)
        ensures
            protocol@ == (if self.listener_protocol@.len() > 0 {
                self.listener_protocol@
            } else if eq_ignore_case(self.route_kind@, "grpc"@) {
                "GRPC"@
            } else {
                "HTTP"@
            }),
    {
        crate::request::effective_http_protocol(
            self.listener_protocol.as_str(),
            self.route_kind.as_str(),
        )
    }
}

/// The request line of the access log: method, path (with `?query` when
/// there is one) and HTTP version (HTTP/1.1 when unknown).
pub fn build_request_line(method: &str, path: &str, query_string: &str, http_version: &str) -> (line:
    String)
    ensures
        line@ == method@ + " "@ + path@ + (if query_string@.len() > 0 {
            "?"@ + query_string@
        } else {
            Seq::empty()
        }) + " "@ + (if http_version@.len() > 0 {
            http_version@
        } else {
            "HTTP/1.1"@
        }),
{
    let mut line = copy_str(method);
    push_str_chars(&mut line, " ");
    push_str_chars(&mut line, path);
    let ghost after_path = line@;
    if !query_string.is_empty() {
        push_str_chars(&mut line, "?");
        push_str_chars(&mut line, query_string);
    } else {
        assert(line@ =~= after_path + Seq::<char>::empty());
    }
    push_str_chars(&mut line, " ");
    if http_version.is_empty() {
        push_str_chars(&mut line, "HTTP/1.1");
    } else {
        push_str_chars(&mut line, http_version);
    }
    line
}

/// A request header as the access log shows it: the value captured for the
/// log, else the request's first value, `-` when neither is a non-empty
/// text.
pub open spec fn spec_logged_header(captured: HeaderSeq, request: Option<HeaderSeq>, name: Seq<
    char,
>) -> Seq<char> {
    let found = match first_value(captured, name) {
        Some(v) => Some(v),
        None => match request {
            Some(h) => first_value(h, name),
            None => None,
        },
    };
    match found {
        Some(v) => if v.len() > 0 {
            v
        } else {
            "-"@
        },
        None => "-"@,
    }
}

pub fn extract_request_header(
    captured: &HeaderList,
    request_headers: Option<&HeaderList>,
    name: &str,
) -> (value: String)
    ensures
        value@ == spec_logged_header(
            captured@,
            match request_headers {
                Some(h) => Some(h@),
                None => None,
            },
            name@,
        ),
{
    let found = match captured.get(name) {
        Some(v) => Some(v),
        None => match request_headers {
            Some(h) => h.get(name),
            None => None,
        },
    };
    match found {
        Some(v) => if v.as_str().is_empty() {
            copy_str("-")
        } else {
            v
        },
        None => copy_str("-"),
    }
}

/// What finishing a request does: mirrored subrequests are neither counted
/// nor logged; others are counted, and logged when the access log is on and
/// samples them.
#[derive(Debug, Clone, Copy, PartialEq, Eq)]
pub struct CompletionPlan {
    pub observe_traffic: bool,
    pub write_access_log: bool,
}

pub fn completion_plan(is_mirror_subrequest: bool, access_log_enabled: bool, sampled: bool) -> (plan:
    CompletionPlan)
    ensures
        plan.observe_traffic == !is_mirror_subrequest,
        plan.write_access_log == (!is_mirror_subrequest && access_log_enabled && sampled),
{
    CompletionPlan {
        observe_traffic: !is_mirror_subrequest,
        write_access_log: !is_mirror_subrequest && access_log_enabled && sampled,
    }
}

/// The route annotations the access log follows: the selected backend's,
/// else those of the fast-path selection, else the ones the record holds.
pub fn access_log_route_annotations<'a>(
    selected: Option<&'a Vec<(String, String)>>,
    fast_selected: Option<&'a Vec<(String, String)>>,
    record: &'a RequestRecord,
) -> (annotations: &'a Vec<(String, String)>)
    ensures
        annotations == (match selected {
            Some(a) => a,
            None => match fast_selected {
                Some(a) => a,
                None => &record.route_annotations,
            },
        }),
{
    match selected {
        Some(a) => a,
        None => match fast_selected {
            Some(a) => a,
            None => &record.route_annotations,
        },
    }
}

/// The runtime ids of the listener, route and backend a request went through.
#[derive(Debug, Clone, Copy, PartialEq, Eq, Default)]
pub struct RuntimeIds {
    pub listener: Option<u64>,
    pub route: Option<u64>,
    pub backend: Option<u64>,
}

/// What access-log sampling is keyed on.
#[derive(Debug, Clone, PartialEq, Eq)]
pub struct AccessLogSampleKey {
    pub event: String,
    pub listener: String,
    pub listener_runtime_id: Option<u64>,
    pub request_id: String,
    pub route_namespace: String,
    pub route_name: String,
    pub route_runtime_id: Option<u64>,
    pub backend: String,
    pub backend_runtime_id: Option<u64>,
    pub start_time_unix_ms: u128,
}

/// The sampling key of a completed request: event `http_request`, the route
/// labels, the runtime ids, the request id and its start time.
pub fn access_log_sample_key(
    labels: &RequestRouteLabels,
    runtime_ids: &RuntimeIds,
    record: &RequestRecord,
) -> (key: AccessLogSampleKey)
    ensures
        key.event@ == "http_request"@,
        key.listener@ == labels.listener_name@,
        key.listener_runtime_id == runtime_ids.listener,
        key.request_id@ == record.request_id@,
        key.route_namespace@ == labels.route_namespace@,
        key.route_name@ == labels.route_name@,
        key.route_runtime_id == runtime_ids.route,
        key.backend@ == labels.backend_name@,
        key.backend_runtime_id == runtime_ids.backend,
        key.start_time_unix_ms == record.started_at_unix_ms,
{
    AccessLogSampleKey {
        event: copy_str("http_request"),
        listener: copy_str(labels.listener_name.as_str()),
        listener_runtime_id: runtime_ids.listener,
        request_id: copy_str(record.request_id.as_str()),
        route_namespace: copy_str(labels.route_namespace.as_str()),
        route_name: copy_str(labels.route_name.as_str()),
        route_runtime_id: runtime_ids.route,
        backend: copy_str(labels.backend_name.as_str()),
        backend_runtime_id: runtime_ids.backend,
        start_time_unix_ms: record.started_at_unix_ms,
    }
}

/// Finishes a request on every path: gives back what was recorded of it,
/// with what to do with that (count it unless it is a mirror subrequest;
/// log it when the access log is on and samples it), and leaves the record
/// cleared for the next request on the connection.
pub fn complete_request(record: &mut RequestRecord, access_log_enabled: bool, sampled: bool) -> (out: (
    CompletionPlan,
    RequestRecord,
))
    ensures
        out.0.observe_traffic == !old(record).is_mirror_subrequest,
        out.0.write_access_log == (!old(record).is_mirror_subrequest && access_log_enabled
            && sampled),
        out.1 == *old(record),
        final(record).is_clear(),
        final(record).upstream_connect_latency_ms_buckets@.len()
            == old(record).upstream_connect_latency_ms_buckets@.len(),
{
    let plan = completion_plan(record.is_mirror_subrequest, access_log_enabled, sampled);
    let mut finished = RequestRecord::new(record.upstream_connect_latency_ms_buckets.len());
    std::mem::swap(record, &mut finished);
    (plan, finished)
}

/// The captured headers after capturing `required` from `source`: each
/// required name the source holds is recorded with its first value,
/// replacing an earlier capture of that name.
pub open spec fn spec_capture_headers(captured: HeaderSeq, source: HeaderSeq, required: Seq<String>) -> HeaderSeq
    decreases required.len(),
{
    if required.len() == 0 {
        captured
    } else {
        let prev = spec_capture_headers(captured, source, required.drop_last());
        let name = required.last()@;
        match first_value(source, name) {
            Some(v) => crate::headers::inserted(prev, name, v),
            None => prev,
        }
    }
}

/// Records, for the access log, the first value of each required request
/// header that the request carries.
pub fn capture_access_log_headers(captured: &mut HeaderList, source: &HeaderList, required: &[String])
    ensures
        final(captured)@ == spec_capture_headers(old(captured)@, source@, required@),
{
    let mut k: usize = 0;
    while k < required.len()
        invariant
            k <= required@.len(),
            captured@ == spec_capture_headers(old(captured)@, source@, required@.take(k as int)),
        decreases required@.len() - k,
    {
        assert(required@.take(k + 1).drop_last() =~= required@.take(k as int));
        assert(required@.take(k + 1).last() == required@[k as int]);
        let name = required[k].as_str();
        if let Some(v) = source.get(name) {
            captured.insert(name, v.as_str());
        }
        k = k + 1;
    }
    assert(required@.take(required@.len() as int) =~= required@);
}

/// The connection fields the access log may need: the scheme (https when
/// the connection is TLS) and the client port (from the client address,
/// else from the socket digest). `None` leaves a field as it is.
pub fn access_log_connection_fields(
    needs_scheme: bool,
    needs_remote_port: bool,
    downstream_tls_present: bool,
    client_remote_port: Option<u16>,
    digest_peer_remote_port: Option<u16>,
) -> (fields: (Option<String>, Option<Option<u16>>))
    ensures
        needs_scheme ==> fields.0 is Some && fields.0->0@ == (if downstream_tls_present {
            "https"@
        } else {
            "http"@
        }),
        !needs_scheme ==> fields.0 is None,
        needs_remote_port ==> fields.1 == Some(
            match client_remote_port {
                Some(p) => Some(p),
                None => digest_peer_remote_port,
            },
        ),
        !needs_remote_port ==> fields.1 is None,
{
    let scheme = if needs_scheme {
        if downstream_tls_present {
            Some(copy_str("https"))
        } else {
            Some(copy_str("http"))
        }
    } else {
        None
    };
    let port = if needs_remote_port {
        Some(
            match client_remote_port {
                Some(p) => Some(p),
                None => digest_peer_remote_port,
            },
        )
    } else {
        None
    };
    (scheme, port)
}

} // verus!
