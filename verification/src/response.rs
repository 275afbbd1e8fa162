//! Responses that the gateway writes itself, and its errors.
use vstd::prelude::*;

use crate::headers::{inserted, HeaderList, HeaderSeq};
use crate::text::{decimal, decimal_string};

verus! {

/// A response head: status code and header fields.
#[derive(Debug, Default)]
pub struct HttpResponse {
    pub status: u16,
    pub headers: HeaderList,
}

/// Why the gateway refuses to go on with a request.
#[derive(Debug, PartialEq, Eq)]
pub enum GatewayError {
    /// A status code outside 100..=999 cannot head a response.
    InvalidStatusCode(u16),
    /// A route holds a filter that this gateway does not implement.
    UnsupportedFilter(String),
    /// A route refers to backends that do not exist.
    InvalidBackendRefs,
    /// No backend of the route is healthy.
    NoHealthyBackend,
    /// A backend TLS policy that the gateway cannot apply.
    UnsupportedBackendTlsValidation(String),
    /// A configured response header whose name or value is not valid HTTP.
    InvalidHeader(String),
}

/// A status code that can head a response.
pub open spec fn valid_status(code: int) -> bool {
    100 <= code <= 999
}

/// An empty response head with the given status.
pub fn build_response(status: u16) -> (out: Result<HttpResponse, GatewayError>)
    ensures
        match out {
            Ok(r) => valid_status(status as int) && r.status == status && r.headers@ == Seq::<
                (Seq<char>, Seq<char>),
            >::empty(),
            Err(e) => !valid_status(status as int) && e == GatewayError::InvalidStatusCode(status),
        },
{
    if status < 100 || status > 999 {
        return Err(GatewayError::InvalidStatusCode(status));
    }
    Ok(HttpResponse { status, headers: HeaderList::new() })
}

/// Sets `content-length` to the decimal value of `len`.
pub fn set_content_length(headers: &mut HeaderList, len: usize)
    ensures
        final(headers)@ == inserted(old(headers)@, "content-length"@, decimal(len as nat)),
{
    let value = decimal_string(len as u64);
    headers.insert("content-length", value.as_str());
}

} // verus!
