//! HTTP Basic authentication against an htpasswd file of bcrypt hashes.
use crate::response::HttpResponse;
use crate::text::{
    chars_range, chars_starts_with, copy_str, first_index, first_index_of, push_str_chars,
    spec_split, spec_split_once, split_on, split_once_chars, starts_with, str_chars, string_from_chars, trim_chars, trim_ws,
};
use base64::Engine;
use vstd::prelude::*;

verus! {

/// The realm announced when the policy leaves it empty.
pub open spec fn spec_basic_auth_realm(realm: Seq<char>) -> Seq<char> {
    if realm.len() == 0 {
        "Restricted"@
    } else {
        realm
    }
}

pub fn basic_auth_realm(realm: &str) -> (out: String)
    ensures
        out@ == spec_basic_auth_realm(realm@),
{
    if realm.is_empty() {
        copy_str("Restricted")
    } else {
        copy_str(realm)
    }
}

/// The bytes that standard base64 (with padding) decodes a text to, or
/// `None` when base64 refuses it.
pub uninterp spec fn spec_base64_standard_decode(text: Seq<char>) -> Option<Seq<u8>>;

/// `base64::engine::general_purpose::STANDARD.decode`.
#[verifier::external_body]
fn base64_standard_decode(text: &str) -> (out: Option<Vec<u8>>)
    ensures
        match out {
            Some(b) => spec_base64_standard_decode(text@) == Some(b@),
            None => spec_base64_standard_decode(text@) is None,
        },
{
    base64::engine::general_purpose::STANDARD.decode(text).ok()
}

/// The text that bytes hold when they are valid UTF-8.
pub uninterp spec fn spec_utf8_text(bytes: Seq<u8>) -> Option<Seq<char>>;

/// `std::str::from_utf8`, copied into a `String`.
#[verifier::external_body]
fn utf8_text(bytes: &[u8]) -> (out: Option<String>)
    ensures
        match out {
            Some(s) => spec_utf8_text(bytes@) == Some(s@),
            None => spec_utf8_text(bytes@) is None,
        },
{
    std::str::from_utf8(bytes).ok().map(|s| s.to_string())
}

/// Whether bcrypt accepts `password` for `hash`; a malformed hash is not
/// accepted.
pub uninterp spec fn spec_bcrypt_accepts(password: Seq<char>, hash: Seq<char>) -> bool;

/// `bcrypt::verify`, where an error counts as a mismatch.
#[verifier::external_body]
fn bcrypt_accepts(password: &str, hash: &str) -> (accepted: bool)
    ensures
        accepted == spec_bcrypt_accepts(password@, hash@),
{
    matches!(bcrypt::verify(password, hash), Ok(true))
}

/// The user and password of an `Authorization: Basic ...` value.
pub open spec fn spec_basic_credentials(header: Option<Seq<char>>) -> Option<(Seq<char>, Seq<char>)> {
    match header {
        None => None,
        Some(v) => if !starts_with(v, "Basic "@) {
            None
        } else {
            match spec_base64_standard_decode(v.subrange(6, v.len() as int)) {
                None => None,
                Some(bytes) => match spec_utf8_text(bytes) {
                    None => None,
                    Some(text) => spec_split_once(text, ':'),
                },
            }
        },
    }
}

/// Reads the user and password from a Basic authorization value: the
/// `Basic ` prefix, standard base64, UTF-8, then `user:password` split at
/// the first colon.
pub fn basic_credentials(header: Option<&str>) -> (out: Option<(String, String)>)
    ensures
        match out {
            Some((u, p)) => spec_basic_credentials(
                match header {
                    Some(v) => Some(v@),
                    None => None,
                },
            ) == Some((u@, p@)),
            None => spec_basic_credentials(
                match header {
                    Some(v) => Some(v@),
                    None => None,
                },
            ) is None,
        },
{
    let value = match header {
        Some(v) => v,
        None => return None,
    };
    let chars = str_chars(value);
    let prefix = str_chars("Basic ");
    proof {
        reveal_strlit("Basic ");
    }
    if !chars_starts_with(chars.as_slice(), prefix.as_slice()) {
        return None;
    }
    let encoded_chars = chars_range(chars.as_slice(), 6, chars.len());
    let encoded = string_from_chars(encoded_chars.as_slice());
    let decoded = match base64_standard_decode(encoded.as_str()) {
        Some(d) => d,
        None => return None,
    };
    let text = match utf8_text(decoded.as_slice()) {
        Some(t) => t,
        None => return None,
    };
    let text_chars = str_chars(text.as_str());
    match split_once_chars(text_chars.as_slice(), ':') {
        Some((user, password)) => Some(
            (string_from_chars(user.as_slice()), string_from_chars(password.as_slice())),
        ),
        None => None,
    }
}

/// The `user:hash` entry of one htpasswd line; blank lines, comments and
/// lines without a colon hold none.
pub open spec fn spec_htpasswd_entry(line: Seq<char>) -> Option<(Seq<char>, Seq<char>)> {
    let t = trim_ws(line);
    if t.len() == 0 || t[0] == '#' {
        None
    } else {
        spec_split_once(t, ':')
    }
}

/// Some line of the htpasswd text names `user` with a hash that bcrypt
/// accepts `password` for.
pub open spec fn spec_htpasswd_accepts(htpasswd: Seq<char>, user: Seq<char>, password: Seq<char>) -> bool {
    exists|k: int|
        0 <= k < spec_split(htpasswd, '\n').len() && match #[trigger] spec_htpasswd_entry(
            spec_split(htpasswd, '\n')[k],
        ) {
            Some((u, h)) => u == user && spec_bcrypt_accepts(password, h),
            None => false,
        }
}

/// Whether the htpasswd text accepts the credentials.
pub fn htpasswd_accepts(htpasswd: &str, user: &str, password: &str) -> (accepted: bool)
    ensures
        accepted == spec_htpasswd_accepts(htpasswd@, user@, password@),
{
    let lines = split_on(htpasswd, '\n');
    let ghost views = lines@.map_values(|l: Vec<char>| l@);
    let want = str_chars(user);
    let mut k: usize = 0;
    while k < lines.len()
        invariant
            k <= lines@.len(),
            views == lines@.map_values(|l: Vec<char>| l@),
            views == spec_split(htpasswd@, '\n'),
            want@ == user@,
            forall|j: int|
                0 <= j < k ==> match #[trigger] spec_htpasswd_entry(views[j]) {
                    Some((u, h)) => !(u == user@ && spec_bcrypt_accepts(password@, h)),
                    None => true,
                },
        decreases lines@.len() - k,
    {
        let trimmed = trim_chars(lines[k].as_slice());
        assert(views[k as int] == lines@[k as int]@);
        if trimmed.len() > 0 && trimmed[0] != '#' {
            if let Some((stored_user, stored_hash)) = split_once_chars(trimmed.as_slice(), ':') {
                if crate::text::chars_eq(stored_user.as_slice(), want.as_slice()) {
                    let hash = string_from_chars(stored_hash.as_slice());
                    if bcrypt_accepts(password, hash.as_str()) {
                        assert(spec_htpasswd_entry(views[k as int]) == Some((stored_user@, stored_hash@)));
                        return true;
                    }
                }
            }
        }
        k = k + 1;
    }
    false
}

/// Whether a request passes Basic authentication: its credentials parse and
/// the htpasswd text accepts them. An empty htpasswd accepts nobody.
pub fn basic_auth_allows(authorization: Option<&str>, htpasswd: &str) -> (allowed: bool)
    ensures
        allowed == match spec_basic_credentials(
            match authorization {
                Some(v) => Some(v@),
                None => None,
            },
        ) {
            Some((u, p)) => htpasswd@.len() > 0 && spec_htpasswd_accepts(htpasswd@, u, p),
            None => false,
        },
{
    let (user, password) = match basic_credentials(authorization) {
        Some(c) => c,
        None => return false,
    };
    if htpasswd.is_empty() {
        return false;
    }
    htpasswd_accepts(htpasswd, user.as_str(), password.as_str())
}

/// The 401 challenge: `www-authenticate: Basic realm="{realm}"` and an empty
/// body.
pub fn basic_auth_challenge(realm: &str) -> (response: HttpResponse)
    ensures
        response.status == 401,
        response.headers@ == seq![
            ("www-authenticate"@, "Basic realm=\""@ + spec_basic_auth_realm(realm@) + "\""@),
            ("content-length"@, "0"@),
        ],
{
    let realm = basic_auth_realm(realm);
    let mut value = copy_str("Basic realm=\"");
    push_str_chars(&mut value, realm.as_str());
    push_str_chars(&mut value, "\"");
    let mut headers = crate::headers::HeaderList::new();
    headers.append("www-authenticate", value.as_str());
    headers.append("content-length", "0");
    HttpResponse { status: 401, headers }
}

} // verus!
