//! The per-request record the proxy keeps between its phases: what it
//! learned of the request and route, the counters of upstream work, and the
//! endpoints a transport retry must avoid.
use crate::headers::HeaderList;
use crate::text::{copy_str, decimal, push_decimal, push_str_chars};
use vstd::prelude::*;

verus! {

/// The kind of route that selected a request.
#[derive(Debug, Clone, Copy, PartialEq, Eq)]
pub enum RouteKind {
    Http,
    Grpc,
    Tcp,
    Udp,
    Tls,
}

pub open spec fn spec_route_kind_name(kind: RouteKind) -> Seq<char> {
    match kind {
        RouteKind::Http => "Http"@,
        RouteKind::Grpc => "Grpc"@,
        RouteKind::Tcp => "Tcp"@,
        RouteKind::Udp => "Udp"@,
        RouteKind::Tls => "Tls"@,
    }
}

/// The label of a route kind in logs and metrics.
pub fn route_kind_name(kind: RouteKind) -> (name: String)
    ensures
        name@ == spec_route_kind_name(kind),
{
    match kind {
        RouteKind::Http => copy_str("Http"),
        RouteKind::Grpc => copy_str("Grpc"),
        RouteKind::Tcp => copy_str("Tcp"),
        RouteKind::Udp => copy_str("Udp"),
        RouteKind::Tls => copy_str("Tls"),
    }
}

/// The key of a route's retry budget: `kind/namespace/name`.
pub fn route_budget_key(route_kind: &str, namespace: &str, name: &str) -> (key: String)
    ensures
        key@ == route_kind@ + "/"@ + namespace@ + "/"@ + name@,
{
    let mut key = copy_str(route_kind);
    push_str_chars(&mut key, "/");
    push_str_chars(&mut key, namespace);
    push_str_chars(&mut key, "/");
    push_str_chars(&mut key, name);
    key
}

/// A latency in milliseconds, capped at `u64::MAX`.
pub fn saturating_latency_ms(value: u128) -> (ms: u64)
    ensures
        ms == (if value > u64::MAX {
            u64::MAX as int
        } else {
            value as int
        }),
{
    if value > u64::MAX as u128 {
        u64::MAX
    } else {
        value as u64
    }
}

/// `address:port` of the upstream peer, as the access log shows it.
pub fn upstream_addr(address: &str, port: u16) -> (addr: String)
    ensures
        addr@ == address@ + ":"@ + decimal(port as nat),
{
    let mut addr = copy_str(address);
    push_str_chars(&mut addr, ":");
    push_decimal(&mut addr, port as u64);
    addr
}

/// An endpoint that failed at the transport level during this request.
#[derive(Debug, Clone)]
pub struct ExcludedEndpoint {
    pub backend_name: String,
    pub address: String,
    pub port: u32,
}

pub open spec fn same_endpoint(a: ExcludedEndpoint, b: ExcludedEndpoint) -> bool {
    a.backend_name@ == b.backend_name@ && a.address@ == b.address@ && a.port == b.port
}

pub open spec fn spec_is_excluded(list: Seq<ExcludedEndpoint>, e: ExcludedEndpoint) -> bool {
    exists|k: int| 0 <= k < list.len() && same_endpoint(#[trigger] list[k], e)
}

/// Whether an endpoint is already excluded from transport retries.
pub fn is_transport_retry_excluded(list: &[ExcludedEndpoint], endpoint: &ExcludedEndpoint) -> (found:
    bool)
    ensures
        found == spec_is_excluded(list@, *endpoint),
{
    let mut k: usize = 0;
    while k < list.len()
        invariant
            k <= list@.len(),
            forall|j: int| 0 <= j < k ==> !same_endpoint(#[trigger] list@[j], *endpoint),
        decreases list@.len() - k,
    {
        let e = &list[k];
        if crate::text::str_eq(e.backend_name.as_str(), endpoint.backend_name.as_str())
            && crate::text::str_eq(e.address.as_str(), endpoint.address.as_str()) && e.port
            == endpoint.port {
            return true;
        }
        k = k + 1;
    }
    false
}

/// Records the endpoint a transport failure hit, once.
pub fn remember_transport_retry_excluded_endpoint(
    list: &mut Vec<ExcludedEndpoint>,
    endpoint: ExcludedEndpoint,
)
    ensures
        spec_is_excluded(old(list)@, endpoint) ==> final(list)@ == old(list)@,
        !spec_is_excluded(old(list)@, endpoint) ==> final(list)@ == old(list)@.push(endpoint),
{
    if !is_transport_retry_excluded(list.as_slice(), &endpoint) {
        list.push(endpoint);
    }
}

/// What the proxy records about one request.
#[derive(Debug)]
pub struct RequestRecord {
    pub status: u16,
    pub response_flags: String,
    pub client_ip: String,
    pub host: String,
    pub method: String,
    pub path: String,
    pub request_id: String,
    pub snapshot_version: String,
    pub listener_name: String,
    pub listener_protocol: String,
    pub route_name: String,
    pub route_namespace: String,
    pub backend: String,
    pub route_kind: String,
    pub http_version: String,
    pub query_string: String,
    pub upstream_addr: String,
    pub response_content_type: String,
    pub connection_id: String,
    pub access_log_scheme: String,
    pub access_log_remote_port: Option<u16>,
    pub access_log_upstream_statuses: Vec<u16>,
    pub bytes_received: usize,
    pub declared_request_body_bytes: usize,
    pub request_body_bytes_seen: usize,
    pub cached_response_body_bytes: usize,
    pub retry_attempts: u32,
    pub upstream_pool_hits: u32,
    pub upstream_pool_misses: u32,
    pub upstream_peer_build_failures: u32,
    pub upstream_connect_latency_ms: u64,
    pub upstream_connect_latency_ms_max: u64,
    pub upstream_connect_latency_ms_buckets: Vec<u32>,
    /// An upstream connection attempt has started and not yet been counted.
    pub connecting: bool,
    pub transport_retry_excluded_endpoints: Vec<ExcludedEndpoint>,
    pub is_mirror_subrequest: bool,
    pub rate_limit_applied: bool,
    pub retry_budget_seeded: bool,
    pub backend_observation_recorded: bool,
    /// A response cache lookup missed and the response is being stored.
    pub http_cache_active: bool,
    /// When the request started, in Unix milliseconds (zero when not taken).
    pub started_at_unix_ms: u128,
    /// The request's header fields, once captured.
    pub request_headers: Option<HeaderList>,
    /// Request header values the access log needs.
    pub access_log_request_headers: HeaderList,
    /// Sent response header values the access log needs.
    pub access_log_sent_response_headers: HeaderList,
    /// Upstream response header values the access log needs.
    pub access_log_upstream_response_headers: HeaderList,
    /// The route's annotations, name and value.
    pub route_annotations: Vec<(String, String)>,
    /// Headers an external authorization service asked to add to the response.
    pub external_auth_response_headers: HeaderList,
    /// The response body buffered for the cache.
    pub cached_response_body: Vec<u8>,
    /// A backend (or a fast-path selection) was chosen for the request.
    pub backend_selected: bool,
    /// Mirrors still receiving the request body.
    pub request_mirrors: usize,
}

impl RequestRecord {
    /// A record holds nothing of a request: empty texts, zero counters, no
    /// flags, every latency bucket zero.
    pub open spec fn is_clear(&self) -> bool {
        &&& self.status == 0
        &&& self.response_flags@.len() == 0
        &&& self.client_ip@.len() == 0
        &&& self.host@.len() == 0
        &&& self.method@.len() == 0
        &&& self.path@.len() == 0
        &&& self.request_id@.len() == 0
        &&& self.snapshot_version@.len() == 0
        &&& self.listener_name@.len() == 0
        &&& self.listener_protocol@.len() == 0
        &&& self.route_name@.len() == 0
        &&& self.route_namespace@.len() == 0
        &&& self.backend@.len() == 0
        &&& self.route_kind@.len() == 0
        &&& self.http_version@.len() == 0
        &&& self.query_string@.len() == 0
        &&& self.upstream_addr@.len() == 0
        &&& self.response_content_type@.len() == 0
        &&& self.connection_id@.len() == 0
        &&& self.access_log_scheme@.len() == 0
        &&& self.access_log_remote_port is None
        &&& self.access_log_upstream_statuses@.len() == 0
        &&& self.bytes_received == 0
        &&& self.declared_request_body_bytes == 0
        &&& self.request_body_bytes_seen == 0
        &&& self.cached_response_body_bytes == 0
        &&& self.retry_attempts == 0
        &&& self.upstream_pool_hits == 0
        &&& self.upstream_pool_misses == 0
        &&& self.upstream_peer_build_failures == 0
        &&& self.upstream_connect_latency_ms == 0
        &&& self.upstream_connect_latency_ms_max == 0
        &&& forall|i: int|
            0 <= i < self.upstream_connect_latency_ms_buckets@.len()
                ==> #[trigger] self.upstream_connect_latency_ms_buckets@[i] == 0
        &&& !self.connecting
        &&& self.transport_retry_excluded_endpoints@.len() == 0
        &&& !self.is_mirror_subrequest
        &&& !self.rate_limit_applied
        &&& !self.retry_budget_seeded
        &&& !self.backend_observation_recorded
        &&& !self.http_cache_active
        &&& self.started_at_unix_ms == 0
        &&& self.request_headers is None
        &&& self.access_log_request_headers@.len() == 0
        &&& self.access_log_sent_response_headers@.len() == 0
        &&& self.access_log_upstream_response_headers@.len() == 0
        &&& self.route_annotations@.len() == 0
        &&& self.external_auth_response_headers@.len() == 0
        &&& self.cached_response_body@.len() == 0
        &&& !self.backend_selected
        &&& self.request_mirrors == 0
    }

    /// A clear record with `bucket_count` latency buckets.
    pub fn new(bucket_count: usize) -> (record: Self)
        ensures
            record.is_clear(),
            record.upstream_connect_latency_ms_buckets@.len() == bucket_count,
    {
        let mut buckets: Vec<u32> = Vec::new();
        let mut i: usize = 0;
        while i < bucket_count
            invariant
                i <= bucket_count,
                buckets@.len() == i,
                forall|j: int| 0 <= j < i ==> #[trigger] buckets@[j] == 0,
            decreases bucket_count - i,
        {
            buckets.push(0);
            i = i + 1;
        }
        RequestRecord {
            status: 0,
            response_flags: String::new(),
            client_ip: String::new(),
            host: String::new(),
            method: String::new(),
            path: String::new(),
            request_id: String::new(),
            snapshot_version: String::new(),
            listener_name: String::new(),
            listener_protocol: String::new(),
            route_name: String::new(),
            route_namespace: String::new(),
            backend: String::new(),
            route_kind: String::new(),
            http_version: String::new(),
            query_string: String::new(),
            upstream_addr: String::new(),
            response_content_type: String::new(),
            connection_id: String::new(),
            access_log_scheme: String::new(),
            access_log_remote_port: None,
            access_log_upstream_statuses: Vec::new(),
            bytes_received: 0,
            declared_request_body_bytes: 0,
            request_body_bytes_seen: 0,
            cached_response_body_bytes: 0,
            retry_attempts: 0,
            upstream_pool_hits: 0,
            upstream_pool_misses: 0,
            upstream_peer_build_failures: 0,
            upstream_connect_latency_ms: 0,
            upstream_connect_latency_ms_max: 0,
            upstream_connect_latency_ms_buckets: buckets,
            connecting: false,
            transport_retry_excluded_endpoints: Vec::new(),
            is_mirror_subrequest: false,
            rate_limit_applied: false,
            retry_budget_seeded: false,
            backend_observation_recorded: false,
            http_cache_active: false,
            started_at_unix_ms: 0,
            request_headers: None,
            access_log_request_headers: HeaderList::new(),
            access_log_sent_response_headers: HeaderList::new(),
            access_log_upstream_response_headers: HeaderList::new(),
            route_annotations: Vec::new(),
            external_auth_response_headers: HeaderList::new(),
            cached_response_body: Vec::new(),
            backend_selected: false,
            request_mirrors: 0,
        }
    }

    /// Forgets everything about the previous request, keeping the number of
    /// latency buckets.
    pub fn clear(&mut self)
        ensures
            final(self).is_clear(),
            final(self).upstream_connect_latency_ms_buckets@.len()
                == old(self).upstream_connect_latency_ms_buckets@.len(),
    {
        let bucket_count = self.upstream_connect_latency_ms_buckets.len();
        *self = RequestRecord::new(bucket_count);
    }

    /// Counts one upstream connection: a reused pooled connection is a hit;
    /// a new one is a miss whose connect latency, when a connect was timed,
    /// is added to the total, the maximum and its bucket. Counters saturate.
    pub fn record_upstream_connection(&mut self, reused: bool, latency_ms: u64, bucket: usize)
        requires
            bucket < old(self).upstream_connect_latency_ms_buckets@.len(),
        ensures
            reused ==> final(self).upstream_pool_hits == (if old(self).upstream_pool_hits
                == u32::MAX {
                u32::MAX as int
            } else {
                old(self).upstream_pool_hits + 1
            }),
            reused ==> final(self).upstream_pool_misses == old(self).upstream_pool_misses,
            reused ==> final(self).upstream_connect_latency_ms == old(
                self,
            ).upstream_connect_latency_ms,
            reused ==> final(self).upstream_connect_latency_ms_buckets@ == old(
                self,
            ).upstream_connect_latency_ms_buckets@,
            !reused ==> final(self).upstream_pool_hits == old(self).upstream_pool_hits,
            !reused ==> final(self).upstream_pool_misses == (if old(self).upstream_pool_misses
                == u32::MAX {
                u32::MAX as int
            } else {
                old(self).upstream_pool_misses + 1
            }),
            !reused && old(self).connecting ==> final(self).upstream_connect_latency_ms == (if old(
                self,
            ).upstream_connect_latency_ms + latency_ms > u64::MAX {
                u64::MAX as int
            } else {
                old(self).upstream_connect_latency_ms + latency_ms
            }),
            !reused && old(self).connecting ==> final(self).upstream_connect_latency_ms_max == (if old(
                self,
            ).upstream_connect_latency_ms_max >= latency_ms {
                old(self).upstream_connect_latency_ms_max
            } else {
                latency_ms
            }),
            !reused && old(self).connecting ==> final(self).upstream_connect_latency_ms_buckets@
                == old(self).upstream_connect_latency_ms_buckets@.update(
                bucket as int,
                (if old(self).upstream_connect_latency_ms_buckets@[bucket as int] == u32::MAX {
                    u32::MAX as int
                } else {
                    old(self).upstream_connect_latency_ms_buckets@[bucket as int] + 1
                }) as u32,
            ),
            !reused && !old(self).connecting ==> final(self).upstream_connect_latency_ms == old(
                self,
            ).upstream_connect_latency_ms,
            !reused && !old(self).connecting ==> final(self).upstream_connect_latency_ms_buckets@
                == old(self).upstream_connect_latency_ms_buckets@,
            !final(self).connecting,
            final(self).upstream_connect_latency_ms_buckets@.len() == old(
                self,
            ).upstream_connect_latency_ms_buckets@.len(),
    {
        if reused {
            self.upstream_pool_hits = self.upstream_pool_hits.saturating_add(1);
            self.connecting = false;
            return ;
        }
        self.upstream_pool_misses = self.upstream_pool_misses.saturating_add(1);
        if self.connecting {
            self.connecting = false;
            self.upstream_connect_latency_ms = self.upstream_connect_latency_ms.saturating_add(
                latency_ms,
            );
            if self.upstream_connect_latency_ms_max < latency_ms {
                self.upstream_connect_latency_ms_max = latency_ms;
            }
            let count = self.upstream_connect_latency_ms_buckets[bucket].saturating_add(1);
            self.upstream_connect_latency_ms_buckets.set(bucket, count);
        }
    }

    /// Counts an upstream peer that could not be built.
    pub fn record_upstream_peer_build_failure(&mut self)
        ensures
            final(self).upstream_peer_build_failures == (if old(self).upstream_peer_build_failures
                == u32::MAX {
                u32::MAX as int
            } else {
                old(self).upstream_peer_build_failures + 1
            }),
    {
        self.upstream_peer_build_failures = self.upstream_peer_build_failures.saturating_add(1);
    }

    /// Records the route and backend shown in logs when they are needed,
    /// and clears them otherwise.
    pub fn set_display_fields(
        &mut self,
        needed: bool,
        route_kind: RouteKind,
        route_name: &str,
        route_namespace: &str,
        listener_name: &str,
        listener_protocol: &str,
        backend_name: &str,
    )
        ensures
            needed ==> final(self).route_kind@ == spec_route_kind_name(route_kind),
            needed ==> final(self).route_name@ == route_name@,
            needed ==> final(self).route_namespace@ == route_namespace@,
            needed ==> final(self).listener_name@ == listener_name@,
            needed ==> final(self).listener_protocol@ == listener_protocol@,
            needed ==> final(self).backend@ == backend_name@,
            !needed ==> final(self).route_kind@.len() == 0 && final(self).route_name@.len() == 0
                && final(self).route_namespace@.len() == 0 && final(self).listener_name@.len() == 0
                && final(self).listener_protocol@.len() == 0 && final(self).backend@.len() == 0,
            final(self).status == old(self).status,
            final(self).upstream_connect_latency_ms_buckets@ == old(
                self,
            ).upstream_connect_latency_ms_buckets@,
    {
        if needed {
            self.route_kind = route_kind_name(route_kind);
            self.route_name = copy_str(route_name);
            self.route_namespace = copy_str(route_namespace);
            self.listener_name = copy_str(listener_name);
            self.listener_protocol = copy_str(listener_protocol);
            self.backend = copy_str(backend_name);
        } else {
            self.route_kind = String::new();
            self.route_name = String::new();
            self.route_namespace = String::new();
            self.listener_name = String::new();
            self.listener_protocol = String::new();
            self.backend = String::new();
        }
    }

    /// Counts a downstream body chunk (mirrored subrequests are not counted)
    /// and reports whether the body passed the limit in force (zero means
    /// none), flagging the request RB when it did.
    pub fn record_request_body_chunk(&mut self, chunk_len: usize, limit: usize) -> (exceeded: bool)
        ensures
            old(self).is_mirror_subrequest ==> !exceeded && final(self).bytes_received == old(
                self,
            ).bytes_received && final(self).request_body_bytes_seen == old(
                self,
            ).request_body_bytes_seen,
            !old(self).is_mirror_subrequest ==> final(self).bytes_received == (if old(
                self,
            ).bytes_received + chunk_len > usize::MAX {
                usize::MAX as int
            } else {
                old(self).bytes_received + chunk_len
            }) && final(self).request_body_bytes_seen == (if old(self).request_body_bytes_seen
                + chunk_len > usize::MAX {
                usize::MAX as int
            } else {
                old(self).request_body_bytes_seen + chunk_len
            }) && exceeded == (limit > 0 && final(self).request_body_bytes_seen > limit),
            exceeded ==> final(self).response_flags@ == "RB"@,
            !exceeded ==> final(self).response_flags@ == old(self).response_flags@,
            final(self).upstream_connect_latency_ms_buckets@ == old(
                self,
            ).upstream_connect_latency_ms_buckets@,
    {
        if self.is_mirror_subrequest {
            return false;
        }
        self.bytes_received = self.bytes_received.saturating_add(chunk_len);
        self.request_body_bytes_seen = self.request_body_bytes_seen.saturating_add(chunk_len);
        if limit > 0 && self.request_body_bytes_seen > limit {
            self.response_flags = copy_str("RB");
            return true;
        }
        false
    }

    /// Records a failure to proxy: the error's status, its flag unless one
    /// is already set, and whether an error response is sent (a status to
    /// send and a downstream still open).
    pub fn record_proxy_failure(&mut self, code: u16, flag: &str, downstream_closed: bool) -> (respond:
        bool)
        ensures
            final(self).status == code,
            old(self).response_flags@.len() == 0 ==> final(self).response_flags@ == flag@,
            old(self).response_flags@.len() > 0 ==> final(self).response_flags@ == old(
                self,
            ).response_flags@,
            respond == (code > 0 && !downstream_closed),
            final(self).upstream_connect_latency_ms_buckets@ == old(
                self,
            ).upstream_connect_latency_ms_buckets@,
    {
        self.status = code;
        if self.response_flags.as_str().is_empty() {
            self.response_flags = copy_str(flag);
        }
        code > 0 && !downstream_closed
    }

    /// The status logged for a request: what was written downstream, else
    /// what the proxy recorded.
    pub fn record_written_status(&mut self, written: Option<u16>)
        ensures
            final(self).status == match written {
                Some(s) => s,
                None => old(self).status,
            },
            final(self).upstream_connect_latency_ms_buckets@ == old(
                self,
            ).upstream_connect_latency_ms_buckets@,
    {
        if let Some(s) = written {
            self.status = s;
        }
    }

    /// Buffers an upstream body chunk for the cache (and the AI gateway):
    /// past the cache's entry limit the cache is abandoned and the buffer
    /// emptied. Tells whether the chunk is kept, and whether the buffer was
    /// dropped.
    pub fn buffer_response_chunk(&mut self, chunk_len: Option<usize>, limit: usize, ai_active: bool) -> (out: (
        bool,
        bool,
    ))
        ensures
            !(old(self).http_cache_active || ai_active) || chunk_len is None ==> out == (false, false)
                && final(self).http_cache_active == old(self).http_cache_active
                && final(self).cached_response_body_bytes == old(self).cached_response_body_bytes,
            (old(self).http_cache_active || ai_active) && chunk_len is Some ==> {
                let exceeded = crate::cache::spec_body_limit_exceeded(
                    old(self).cached_response_body_bytes,
                    chunk_len->0,
                    limit,
                );
                &&& out == (!exceeded, exceeded)
                &&& exceeded ==> !final(self).http_cache_active
                    && final(self).cached_response_body_bytes == 0
                &&& !exceeded ==> final(self).http_cache_active == old(self).http_cache_active
                    && final(self).cached_response_body_bytes == (if old(
                    self,
                ).cached_response_body_bytes + chunk_len->0 > usize::MAX {
                    usize::MAX as int
                } else {
                    old(self).cached_response_body_bytes + chunk_len->0
                })
            },
            final(self).upstream_connect_latency_ms_buckets@ == old(
                self,
            ).upstream_connect_latency_ms_buckets@,
    {
        if !(self.http_cache_active || ai_active) {
            return (false, false);
        }
        let len = match chunk_len {
            Some(len) => len,
            None => return (false, false),
        };
        if crate::cache::cache_response_body_limit_exceeded(
            self.cached_response_body_bytes,
            len,
            limit,
        ) {
            self.http_cache_active = false;
            self.cached_response_body_bytes = 0;
            (false, true)
        } else {
            self.cached_response_body_bytes = self.cached_response_body_bytes.saturating_add(len);
            (true, false)
        }
    }

    /// Whether this response's outcome is reported to the backend's health
    /// tracking: once per request, and only when a backend was selected.
    pub fn take_backend_observation(&mut self, backend_selected: bool) -> (observe: bool)
        ensures
            observe == (!old(self).backend_observation_recorded && backend_selected),
            final(self).backend_observation_recorded == (old(self).backend_observation_recorded
                || backend_selected),
            final(self).upstream_connect_latency_ms_buckets@ == old(
                self,
            ).upstream_connect_latency_ms_buckets@,
    {
        if self.backend_observation_recorded || !backend_selected {
            return false;
        }
        self.backend_observation_recorded = true;
        true
    }

    /// Marks the request as answered locally: its status and response flag.
    pub fn answer(&mut self, status: u16, flag: &str)
        ensures
            final(self).status == status,
            final(self).response_flags@ == flag@,
            final(self).upstream_connect_latency_ms_buckets@ == old(
                self,
            ).upstream_connect_latency_ms_buckets@,
    {
        self.status = status;
        self.response_flags = copy_str(flag);
    }
}

/// Clearing forgets the request entirely: two cleared records with the same
/// number of latency buckets agree on every field, so clearing twice is the
/// same as clearing once.
pub proof fn lemma_cleared_records_agree(a: RequestRecord, b: RequestRecord)
    requires
        a.is_clear(),
        b.is_clear(),
        a.upstream_connect_latency_ms_buckets@.len() == b.upstream_connect_latency_ms_buckets@.len(),
    ensures
        a.upstream_connect_latency_ms_buckets@ == b.upstream_connect_latency_ms_buckets@,
        a.status == b.status,
        a.response_flags@ == b.response_flags@,
        a.host@ == b.host@ && a.path@ == b.path@ && a.method@ == b.method@,
        a.request_id@ == b.request_id@ && a.client_ip@ == b.client_ip@,
        a.route_name@ == b.route_name@ && a.route_namespace@ == b.route_namespace@,
        a.route_kind@ == b.route_kind@ && a.backend@ == b.backend@,
        a.upstream_pool_hits == b.upstream_pool_hits && a.upstream_pool_misses
            == b.upstream_pool_misses,
        a.upstream_connect_latency_ms == b.upstream_connect_latency_ms,
        a.upstream_connect_latency_ms_max == b.upstream_connect_latency_ms_max,
        a.retry_attempts == b.retry_attempts && a.bytes_received == b.bytes_received,
        a.transport_retry_excluded_endpoints@.len() == b.transport_retry_excluded_endpoints@.len(),
        a.connecting == b.connecting && a.is_mirror_subrequest == b.is_mirror_subrequest,
        a.started_at_unix_ms == b.started_at_unix_ms && a.request_headers is None
            && b.request_headers is None,
        a.access_log_request_headers@ == b.access_log_request_headers@,
        a.access_log_sent_response_headers@ == b.access_log_sent_response_headers@,
        a.access_log_upstream_response_headers@ == b.access_log_upstream_response_headers@,
        a.route_annotations@.len() == b.route_annotations@.len(),
        a.external_auth_response_headers@ == b.external_auth_response_headers@,
        a.cached_response_body@ == b.cached_response_body@,
        a.backend_selected == b.backend_selected && a.request_mirrors == b.request_mirrors,
{
    assert(a.access_log_request_headers@ =~= b.access_log_request_headers@);
    assert(a.access_log_sent_response_headers@ =~= b.access_log_sent_response_headers@);
    assert(a.access_log_upstream_response_headers@ =~= b.access_log_upstream_response_headers@);
    assert(a.external_auth_response_headers@ =~= b.external_auth_response_headers@);
    assert(a.cached_response_body@ =~= b.cached_response_body@);
    assert(a.upstream_connect_latency_ms_buckets@ =~= b.upstream_connect_latency_ms_buckets@);
    assert(a.response_flags@ =~= b.response_flags@);
    assert(a.host@ =~= b.host@);
    assert(a.path@ =~= b.path@);
    assert(a.method@ =~= b.method@);
    assert(a.request_id@ =~= b.request_id@);
    assert(a.client_ip@ =~= b.client_ip@);
    assert(a.route_name@ =~= b.route_name@);
    assert(a.route_namespace@ =~= b.route_namespace@);
    assert(a.route_kind@ =~= b.route_kind@);
    assert(a.backend@ =~= b.backend@);
}

} // verus!
