//! TLS names and checks: the server name a downstream client asked for, the
//! SNI sent to a backend, and the subject alternative names a backend
//! certificate must present.
use crate::ir::{BackendSubjectAltName, BackendTlsValidation};
use crate::response::GatewayError;
use crate::text::{
    chars_ends_with, chars_eq, chars_range, chars_starts_with, copy_str, ends_with, first_index,
    first_index_of, last_index, last_index_of, lower_chars, lower_seq, push_chars, push_str_chars,
    starts_with, str_chars, string_from_chars, trim_chars, trim_end_char, trim_end_matching, trim_ws,
};
use vstd::prelude::*;

verus! {

/// What the TLS handshake of a downstream connection recorded.
#[derive(Debug, Clone)]
pub struct DownstreamTlsInfo {
    pub server_name: String,
    pub client_certificate_present: bool,
}

/// The SNI a downstream client sent, when the connection is TLS and the
/// name is not empty.
pub fn downstream_tls_server_name(info: Option<&DownstreamTlsInfo>) -> (name: Option<String>)
    ensures
        match info {
            Some(i) => if i.server_name@.len() > 0 {
                name is Some && name->0@ == i.server_name@
            } else {
                name is None
            },
            None => name is None,
        },
{
    match info {
        Some(i) => {
            if i.server_name.as_str().is_empty() {
                None
            } else {
                Some(copy_str(i.server_name.as_str()))
            }
        },
        None => None,
    }
}

/// Whether the downstream client presented a certificate.
pub fn downstream_tls_client_certificate_present(info: Option<&DownstreamTlsInfo>) -> (present:
    bool)
    ensures
        present == (info is Some && info->0.client_certificate_present),
{
    match info {
        Some(i) => i.client_certificate_present,
        None => false,
    }
}

/// `{service}.{namespace}.svc` for a backend named `namespace/service:port`.
pub open spec fn spec_backend_tls_service_name(name: Seq<char>) -> Option<Seq<char>> {
    match first_index_of(name, '/') {
        None => None,
        Some(i) => {
            let namespace = name.subrange(0, i);
            let cluster = name.subrange(i + 1, name.len() as int);
            match last_index_of(cluster, ':') {
                None => None,
                Some(j) => {
                    let service = cluster.subrange(0, j);
                    if namespace.len() == 0 || service.len() == 0 {
                        None
                    } else {
                        Some(service + "."@ + namespace + ".svc"@)
                    }
                },
            }
        },
    }
}

/// The in-cluster DNS name of a backend named `namespace/service:port`:
/// the namespace ends at the first `/`, the service at the last `:` after it.
pub fn backend_tls_service_name(backend_name: &str) -> (name: Option<String>)
    ensures
        match name {
            Some(n) => spec_backend_tls_service_name(backend_name@) == Some(n@),
            None => spec_backend_tls_service_name(backend_name@) is None,
        },
{
    let chars = str_chars(backend_name);
    let slash = match first_index(chars.as_slice(), '/') {
        Some(i) => i,
        None => return None,
    };
    let n = chars.len();
    assert(slash < n);
    let namespace = chars_range(chars.as_slice(), 0, slash);
    let cluster = chars_range(chars.as_slice(), slash + 1, n);
    let colon = match last_index(cluster.as_slice(), ':') {
        Some(j) => j,
        None => return None,
    };
    let service = chars_range(cluster.as_slice(), 0, colon);
    if namespace.len() == 0 || service.len() == 0 {
        return None;
    }
    let mut out = String::new();
    push_chars(&mut out, service.as_slice());
    push_str_chars(&mut out, ".");
    push_chars(&mut out, namespace.as_slice());
    push_str_chars(&mut out, ".svc");
    proof {
        assert(out@ =~= service@ + "."@ + namespace@ + ".svc"@);
    }
    Some(out)
}

/// The SNI for a backend: the validation hostname when one is set, else the
/// backend's in-cluster service name.
pub fn backend_tls_sni_name(backend_name: &str, validation: Option<&BackendTlsValidation>) -> (sni:
    Option<String>)
    ensures
        match validation {
            Some(v) if v.hostname@.len() > 0 => sni is Some && sni->0@ == v.hostname@,
            _ => match sni {
                Some(n) => spec_backend_tls_service_name(backend_name@) == Some(n@),
                None => spec_backend_tls_service_name(backend_name@) is None,
            },
        },
{
    if let Some(v) = validation {
        if !v.hostname.as_str().is_empty() {
            return Some(copy_str(v.hostname.as_str()));
        }
    }
    backend_tls_service_name(backend_name)
}

/// A hostname as certificates are compared: trimmed, without trailing dots,
/// in ASCII lowercase.
pub open spec fn spec_normalize_hostname(value: Seq<char>) -> Seq<char> {
    lower_seq(trim_end_char(trim_ws(value), '.'))
}

pub fn normalize_backend_tls_hostname(value: &str) -> (out: String)
    ensures
        out@ == spec_normalize_hostname(value@),
{
    let chars = str_chars(value);
    let trimmed = trim_chars(chars.as_slice());
    let undotted = trim_end_matching(trimmed.as_slice(), '.');
    let lower = lower_chars(undotted.as_slice());
    string_from_chars(lower.as_slice())
}

/// A `*.suffix` pattern matches a host that ends in `.suffix` with at least
/// one more label in front.
pub open spec fn spec_wildcard_matches(pattern: Seq<char>, host: Seq<char>) -> bool {
    starts_with(pattern, "*."@) && {
        let suffix = pattern.subrange(2, pattern.len() as int);
        &&& host != suffix
        &&& ends_with(host, suffix)
        &&& host.len() > suffix.len()
        &&& host[host.len() - suffix.len() - 1] == '.'
    }
}

pub fn wildcard_backend_tls_hostname_matches(pattern: &[char], host: &[char]) -> (matched: bool)
    ensures
        matched == spec_wildcard_matches(pattern@, host@),
{
    let star_dot = str_chars("*.");
    proof {
        reveal_strlit("*.");
    }
    if !chars_starts_with(pattern, star_dot.as_slice()) {
        return false;
    }
    let suffix = chars_range(pattern, 2, pattern.len());
    if chars_eq(host, suffix.as_slice()) {
        return false;
    }
    if !chars_ends_with(host, suffix.as_slice()) {
        return false;
    }
    if host.len() <= suffix.len() {
        return false;
    }
    host[host.len() - suffix.len() - 1] == '.'
}

pub open spec fn spec_hostname_san_matches(pattern: Seq<char>, expected: Seq<char>) -> bool {
    pattern == expected || spec_wildcard_matches(pattern, expected)
}

/// A presented hostname matches an expected one exactly or as a wildcard.
pub fn hostname_subject_alt_name_matches(pattern: &[char], expected: &[char]) -> (matched: bool)
    ensures
        matched == spec_hostname_san_matches(pattern@, expected@),
{
    if chars_eq(pattern, expected) {
        return true;
    }
    wildcard_backend_tls_hostname_matches(pattern, expected)
}

/// One subject alternative name entry of a presented certificate.
#[derive(Debug, Clone)]
pub struct PresentedSubjectAltName {
    pub dns_name: Option<String>,
    pub uri: Option<String>,
}

/// Some DNS entry of the certificate, normalized and not empty, matches.
pub open spec fn spec_presents_hostname(
    presented: Seq<PresentedSubjectAltName>,
    expected: Seq<char>,
) -> bool {
    exists|k: int|
        0 <= k < presented.len() && #[trigger] presented[k].dns_name is Some && {
            let n = spec_normalize_hostname(presented[k].dns_name->0@);
            n.len() > 0 && spec_hostname_san_matches(n, expected)
        }
}

/// Some URI entry of the certificate equals `expected`.
pub open spec fn spec_presents_uri(presented: Seq<PresentedSubjectAltName>, expected: Seq<char>) -> bool {
    exists|k: int|
        0 <= k < presented.len() && #[trigger] presented[k].uri is Some && presented[k].uri->0@
            == expected
}

/// The outcome of checking the configured names from index `i` on.
pub open spec fn spec_san_check_from(
    presented: Seq<PresentedSubjectAltName>,
    expected: Seq<BackendSubjectAltName>,
    i: int,
) -> Result<bool, Seq<char>>
    decreases expected.len() - i,
{
    if i < 0 || i >= expected.len() {
        Ok(false)
    } else {
        let e = expected[i];
        if e.value@.len() == 0 {
            Err("backend TLS subjectAltNames entries must not be empty"@)
        } else if e.kind@ == "Hostname"@ {
            let want = spec_normalize_hostname(e.value@);
            if want.len() == 0 {
                Err("backend TLS Hostname subjectAltName entries must not be empty"@)
            } else if spec_presents_hostname(presented, want) {
                Ok(true)
            } else {
                spec_san_check_from(presented, expected, i + 1)
            }
        } else if e.kind@ == "URI"@ {
            if spec_presents_uri(presented, e.value@) {
                Ok(true)
            } else {
                spec_san_check_from(presented, expected, i + 1)
            }
        } else {
            Err("unsupported backend TLS subjectAltName type: "@ + e.kind@)
        }
    }
}

/// Whether a certificate presenting `presented` satisfies the configured
/// names: any one match is enough, no configured names accept anything, and
/// a malformed configured name is an error met in list order.
pub open spec fn spec_subject_alt_names_match(
    presented: Seq<PresentedSubjectAltName>,
    expected: Seq<BackendSubjectAltName>,
) -> Result<bool, Seq<char>> {
    if expected.len() == 0 {
        Ok(true)
    } else {
        spec_san_check_from(presented, expected, 0)
    }
}

fn presents_hostname(presented: &[PresentedSubjectAltName], expected: &[char]) -> (found: bool)
    ensures
        found == spec_presents_hostname(presented@, expected@),
{
    let mut k: usize = 0;
    while k < presented.len()
        invariant
            k <= presented@.len(),
            forall|j: int|
                0 <= j < k ==> !(#[trigger] presented@[j].dns_name is Some && {
                    let n = spec_normalize_hostname(presented@[j].dns_name->0@);
                    n.len() > 0 && spec_hostname_san_matches(n, expected@)
                }),
        decreases presented@.len() - k,
    {
        if let Some(dns) = &presented[k].dns_name {
            let normalized = normalize_backend_tls_hostname(dns.as_str());
            let n = str_chars(normalized.as_str());
            if n.len() > 0 && hostname_subject_alt_name_matches(n.as_slice(), expected) {
                assert(presented@[k as int].dns_name is Some);
                return true;
            }
        }
        k = k + 1;
    }
    false
}

fn presents_uri(presented: &[PresentedSubjectAltName], expected: &str) -> (found: bool)
    ensures
        found == spec_presents_uri(presented@, expected@),
{
    let mut k: usize = 0;
    let want = str_chars(expected);
    while k < presented.len()
        invariant
            k <= presented@.len(),
            want@ == expected@,
            forall|j: int|
                0 <= j < k ==> !(#[trigger] presented@[j].uri is Some && presented@[j].uri->0@
                    == expected@),
        decreases presented@.len() - k,
    {
        if let Some(uri) = &presented[k].uri {
            let u = str_chars(uri.as_str());
            if chars_eq(u.as_slice(), want.as_slice()) {
                assert(presented@[k as int].uri is Some);
                return true;
            }
        }
        k = k + 1;
    }
    false
}

/// Checks a backend certificate's subject alternative names against the
/// configured ones.
pub fn backend_certificate_matches_subject_alt_names(
    presented: &[PresentedSubjectAltName],
    subject_alt_names: &[BackendSubjectAltName],
) -> (out: Result<bool, String>)
    ensures
        match out {
            Ok(b) => spec_subject_alt_names_match(presented@, subject_alt_names@) == Ok::<
                bool,
                Seq<char>,
            >(b),
            Err(m) => spec_subject_alt_names_match(presented@, subject_alt_names@) == Err::<
                bool,
                Seq<char>,
            >(m@),
        },
{
    if subject_alt_names.len() == 0 {
        return Ok(true);
    }
    let mut i: usize = 0;
    while i < subject_alt_names.len()
        invariant
            i <= subject_alt_names@.len(),
            subject_alt_names@.len() > 0,
            spec_subject_alt_names_match(presented@, subject_alt_names@) == spec_san_check_from(
                presented@,
                subject_alt_names@,
                i as int,
            ),
        decreases subject_alt_names@.len() - i,
    {
        let item = &subject_alt_names[i];
        if item.value.as_str().is_empty() {
            return Err(copy_str("backend TLS subjectAltNames entries must not be empty"));
        }
        let kind = str_chars(item.kind.as_str());
        let hostname_kind = str_chars("Hostname");
        let uri_kind = str_chars("URI");
        if chars_eq(kind.as_slice(), hostname_kind.as_slice()) {
            let want = normalize_backend_tls_hostname(item.value.as_str());
            let want_chars = str_chars(want.as_str());
            if want_chars.len() == 0 {
                return Err(
                    copy_str("backend TLS Hostname subjectAltName entries must not be empty"),
                );
            }
            if presents_hostname(presented, want_chars.as_slice()) {
                return Ok(true);
            }
        } else if chars_eq(kind.as_slice(), uri_kind.as_slice()) {
            if presents_uri(presented, item.value.as_str()) {
                return Ok(true);
            }
        } else {
            let mut message = copy_str("unsupported backend TLS subjectAltName type: ");
            push_str_chars(&mut message, item.kind.as_str());
            return Err(message);
        }
        i = i + 1;
    }
    Ok(false)
}

/// How a backend connection is verified under a BackendTLSPolicy.
#[derive(Debug, Clone, Copy, PartialEq, Eq)]
pub struct TlsValidationPlan {
    /// Trust the system CA store (else the policy's own bundle).
    pub use_system_ca_certificates: bool,
    /// Let the TLS library check the hostname (no subjectAltNames given).
    pub verify_hostname: bool,
    /// Check the configured subjectAltNames after the handshake.
    pub check_subject_alt_names: bool,
}

pub open spec fn spec_tls_validation_plan(
    v: BackendTlsValidation,
    ca_bundle_error: Option<Seq<char>>,
) -> Result<TlsValidationPlan, Seq<char>> {
    if v.hostname@.len() == 0 {
        Err("backend TLS validation hostname must not be empty"@)
    } else if !v.use_system_ca_certificates && v.ca_pems@.len() == 0 {
        Err(
            "backend TLS validation must provide either system CA certificates or a custom CA bundle"@,
        )
    } else if !v.use_system_ca_certificates && ca_bundle_error is Some {
        Err(ca_bundle_error->0)
    } else if v.min_version@.len() > 0 || v.max_version@.len() > 0 {
        Err(
            "backend TLS version bounds are not supported by the upstream Nantian/OpenSSL runtime"@,
        )
    } else {
        Ok(
            TlsValidationPlan {
                use_system_ca_certificates: v.use_system_ca_certificates,
                verify_hostname: v.subject_alt_names@.len() == 0,
                check_subject_alt_names: v.subject_alt_names@.len() > 0,
            },
        )
    }
}

pub open spec fn opt_string_view(s: Option<String>) -> Option<Seq<char>> {
    match s {
        Some(m) => Some(m@),
        None => None,
    }
}

/// Decides how a backend TLS policy is applied. `ca_bundle_error` is what
/// parsing the policy's CA bundle reported, when it failed; it matters only
/// when the system CA store is not used.
pub fn backend_tls_validation_plan(
    validation: &BackendTlsValidation,
    ca_bundle_error: Option<String>,
) -> (out: Result<TlsValidationPlan, GatewayError>)
    ensures
        match out {
            Ok(plan) => spec_tls_validation_plan(*validation, opt_string_view(ca_bundle_error))
                == Ok::<TlsValidationPlan, Seq<char>>(plan),
            Err(GatewayError::UnsupportedBackendTlsValidation(m)) => spec_tls_validation_plan(
                *validation,
                opt_string_view(ca_bundle_error),
            ) == Err::<TlsValidationPlan, Seq<char>>(m@),
            Err(_) => false,
        },
{
    if validation.hostname.as_str().is_empty() {
        return Err(
            GatewayError::UnsupportedBackendTlsValidation(
                copy_str("backend TLS validation hostname must not be empty"),
            ),
        );
    }
    if !validation.use_system_ca_certificates {
        if validation.ca_pems.len() == 0 {
            return Err(
                GatewayError::UnsupportedBackendTlsValidation(
                    copy_str(
                        "backend TLS validation must provide either system CA certificates or a custom CA bundle",
                    ),
                ),
            );
        }
        if let Some(message) = ca_bundle_error {
            return Err(GatewayError::UnsupportedBackendTlsValidation(message));
        }
    }
    if !validation.min_version.as_str().is_empty() || !validation.max_version.as_str().is_empty() {
        return Err(
            GatewayError::UnsupportedBackendTlsValidation(
                copy_str(
                    "backend TLS version bounds are not supported by the upstream Nantian/OpenSSL runtime",
                ),
            ),
        );
    }
    let has_names = validation.subject_alt_names.len() > 0;
    Ok(
        TlsValidationPlan {
            use_system_ca_certificates: validation.use_system_ca_certificates,
            verify_hostname: !has_names,
            check_subject_alt_names: has_names,
        },
    )
}

} // verus!
