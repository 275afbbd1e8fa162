//! The route configuration that the gateway applies to a request: filters,
//! header operations and their parameters, as plain values.
use vstd::prelude::*;

verus! {

/// The models of a sequence of strings.
pub open spec fn strs(v: Seq<String>) -> Seq<Seq<char>> {
    v.map_values(|s: String| s@)
}

/// One header operation: a name and a value.
#[derive(Debug, Default)]
pub struct HeaderOperation {
    pub name: String,
    pub value: String,
}

/// A Gateway API header modifier: fields to set, to add and to remove.
#[derive(Debug, Default)]
pub struct HeaderModifier {
    pub set: Vec<HeaderOperation>,
    pub add: Vec<HeaderOperation>,
    pub remove: Vec<String>,
}

/// A Gateway API path modifier.
#[derive(Debug, Default)]
pub struct PathModifier {
    pub modifier_type: String,
    pub replace_full_path: String,
    pub replace_prefix_match: String,
}

/// The path match of the rule that selected a request.
#[derive(Debug, Default)]
pub struct MatchedHttpPath {
    pub path: String,
    pub path_type: String,
}

/// A Gateway API request redirect.
#[derive(Debug, Default)]
pub struct RequestRedirectFilter {
    pub scheme: String,
    pub hostname: String,
    pub path: Option<PathModifier>,
    pub port: Option<u32>,
    pub status_code: u16,
}

/// A Gateway API URL rewrite.
#[derive(Debug, Default)]
pub struct UrlRewriteFilter {
    pub hostname: String,
    pub path: Option<PathModifier>,
}

/// A request mirror to a backend.
#[derive(Debug, Default)]
pub struct RequestMirrorFilter {
    pub backend_name: String,
}

/// A CORS policy.
#[derive(Debug, Default)]
pub struct CorsFilter {
    pub allow_origins: Vec<String>,
    pub allow_methods: Vec<String>,
    pub allow_headers: Vec<String>,
    pub expose_headers: Vec<String>,
    pub allow_credentials: bool,
    pub max_age: Option<u64>,
}

/// A response that the gateway writes itself.
#[derive(Debug, Default)]
pub struct DirectResponseFilter {
    pub status_code: u16,
    pub body: String,
    pub content_type: String,
    pub headers: Vec<HeaderOperation>,
}

/// A reference to an extension filter, with what it resolved to.
#[derive(Debug, Default)]
pub struct ExtensionFilter {
    pub resolved: bool,
    pub extension_type: String,
    pub message: String,
    pub direct_response: Option<DirectResponseFilter>,
}

/// HTTP settings of an external authorization service.
#[derive(Debug, Default)]
pub struct ExternalAuthHttp {
    pub path: String,
    pub allowed_headers: Vec<String>,
    pub allowed_response_headers: Vec<String>,
}

/// gRPC settings of an external authorization service.
#[derive(Debug, Default)]
pub struct ExternalAuthGrpc {
    pub allowed_headers: Vec<String>,
}

/// An external authorization filter.
#[derive(Debug, Default)]
pub struct ExternalAuthFilter {
    pub protocol: String,
    pub backend_name: String,
    pub forward_body_max_size: Option<u64>,
    pub http: ExternalAuthHttp,
    pub grpc: ExternalAuthGrpc,
}

/// A claim of a JWT copied into a request header.
#[derive(Debug, Default)]
pub struct ClaimToHeader {
    pub claim: String,
    pub header: String,
}

/// A JWT authentication filter.
#[derive(Debug, Default)]
pub struct JwtAuthFilter {
    pub jwks_url: String,
    pub issuer: Option<String>,
    pub audience: Option<String>,
    pub cache_ttl_secs: Option<u64>,
    pub header_name: String,
    pub token_prefix: String,
    pub claims_to_headers: Vec<ClaimToHeader>,
}

/// One filter of a route rule; `filter_type` names its kind.
#[derive(Debug, Default)]
pub struct Filter {
    pub filter_type: String,
    pub header_modifier: Option<HeaderModifier>,
    pub request_redirect: Option<RequestRedirectFilter>,
    pub url_rewrite: Option<UrlRewriteFilter>,
    pub request_mirror: Option<RequestMirrorFilter>,
    pub cors: Option<CorsFilter>,
    pub external_auth: Option<ExternalAuthFilter>,
    pub extension_ref: Option<ExtensionFilter>,
    pub jwt_auth: Option<JwtAuthFilter>,
}

/// One subject alternative name that a backend certificate must present.
#[derive(Debug, Default)]
pub struct BackendSubjectAltName {
    pub kind: String,
    pub value: String,
}

/// A BackendTLSPolicy's validation settings.
#[derive(Debug, Default)]
pub struct BackendTlsValidation {
    pub hostname: String,
    pub use_system_ca_certificates: bool,
    pub ca_pems: Vec<String>,
    pub subject_alt_names: Vec<BackendSubjectAltName>,
    pub min_version: String,
    pub max_version: String,
}

/// What route selection reads of a request.
#[derive(Debug, Default)]
pub struct RequestMeta {
    pub host: Option<String>,
    pub port: u32,
    pub path: String,
    pub method: String,
    pub headers: crate::headers::HeaderList,
    pub source_ip: Option<String>,
}

} // verus!
