//! JWT authentication: the errors and their messages, the bearer token of a
//! request, the RSA keys of a JWKS document, the key a token names, and the
//! response a rejected request gets.
use crate::ir::ClaimToHeader;
use crate::text::{chars_range, chars_starts_with, copy_str, push_str_chars, starts_with, str_chars, string_from_chars};
use crate::external_auth::{
    header_name_is_valid, header_value_is_valid, spec_valid_header_name, spec_valid_header_value,
};
use crate::headers::{inserted, HeaderList, HeaderSeq};
use crate::numeric_date::{numeric_date_seconds, spec_numeric_date};
use jsonwebtoken::errors::ErrorKind;
use jsonwebtoken::{decode, Algorithm, DecodingKey, Validation};
use serde_json::Value;
use vstd::prelude::*;

verus! {

/// Why a token was not accepted.
#[derive(Debug, Clone, PartialEq, Eq)]
pub enum JwtError {
    MissingToken,
    InvalidToken(String),
    NoMatchingKey(String),
    Expired,
    JwksFetchFailed(String),
}

pub open spec fn spec_jwt_error_message(e: JwtError) -> Seq<char> {
    match e {
        JwtError::MissingToken => "missing JWT token"@,
        JwtError::InvalidToken(msg) => "invalid JWT token: "@ + msg@,
        JwtError::NoMatchingKey(kid) => "no matching JWK for kid: "@ + kid@,
        JwtError::Expired => "JWT token expired"@,
        JwtError::JwksFetchFailed(msg) => "JWKS fetch failed: "@ + msg@,
    }
}

impl JwtError {
    /// The human-readable message of the error.
    pub fn message(&self) -> (out: String)
        ensures
            out@ == spec_jwt_error_message(*self),
    {
        match self {
            JwtError::MissingToken => copy_str("missing JWT token"),
            JwtError::InvalidToken(msg) => {
                let mut out = copy_str("invalid JWT token: ");
                push_str_chars(&mut out, msg.as_str());
                out
            },
            JwtError::NoMatchingKey(kid) => {
                let mut out = copy_str("no matching JWK for kid: ");
                push_str_chars(&mut out, kid.as_str());
                out
            },
            JwtError::Expired => copy_str("JWT token expired"),
            JwtError::JwksFetchFailed(msg) => {
                let mut out = copy_str("JWKS fetch failed: ");
                push_str_chars(&mut out, msg.as_str());
                out
            },
        }
    }
}

/// The token carried in a header value that starts with the configured
/// prefix (for example `Bearer `): what follows the prefix.
pub fn extract_bearer_token(header_value: Option<&str>, token_prefix: &str) -> (token: Option<
    String,
>)
    ensures
        match header_value {
            Some(v) => if starts_with(v@, token_prefix@) {
                token is Some && token->0@ == v@.subrange(token_prefix@.len() as int, v@.len() as int)
            } else {
                token is None
            },
            None => token is None,
        },
{
    let value = match header_value {
        Some(v) => v,
        None => return None,
    };
    let chars = str_chars(value);
    let prefix = str_chars(token_prefix);
    if chars_starts_with(chars.as_slice(), prefix.as_slice()) {
        let rest = chars_range(chars.as_slice(), prefix.len(), chars.len());
        Some(string_from_chars(rest.as_slice()))
    } else {
        None
    }
}

/// What the JWT filter concluded about a request.
#[derive(Debug, Clone, PartialEq, Eq)]
pub enum JwtAuthOutcome {
    /// The request carries no token under the configured header and prefix.
    MissingToken,
    /// No validator could be built for the filter.
    ValidatorUnavailable(String),
    /// The validator refused the token.
    Rejected(JwtError),
    /// The token is valid; the request goes on.
    Accepted,
}

/// The local response to a request the JWT filter stops.
#[derive(Debug, Clone, PartialEq, Eq)]
pub struct JwtRejection {
    pub status: u16,
    /// The response flag recorded for the request: always `JWT`.
    pub flag: String,
    pub body: String,
    /// Whether the route is recorded for the access log before answering.
    pub records_route: bool,
}

pub open spec fn spec_jwt_rejection(outcome: JwtAuthOutcome) -> Option<(u16, Seq<char>, bool)> {
    match outcome {
        JwtAuthOutcome::MissingToken => Some((401u16, "missing JWT token"@, true)),
        JwtAuthOutcome::ValidatorUnavailable(e) => Some((500u16, "JWT validator error: "@ + e@, false)),
        JwtAuthOutcome::Rejected(JwtError::Expired) => Some((401u16, "JWT token expired"@, true)),
        JwtAuthOutcome::Rejected(e) => Some(
            (401u16, "JWT validation failed: "@ + spec_jwt_error_message(e), true),
        ),
        JwtAuthOutcome::Accepted => None,
    }
}

/// The response for each way the JWT filter can stop a request: 401 for a
/// missing, expired or invalid token, 500 when no validator is available;
/// nothing when the token was accepted.
pub fn jwt_auth_rejection(outcome: &JwtAuthOutcome) -> (rejection: Option<JwtRejection>)
    ensures
        match rejection {
            Some(r) => spec_jwt_rejection(*outcome) == Some((r.status, r.body@, r.records_route))
                && r.flag@ == "JWT"@,
            None => spec_jwt_rejection(*outcome) is None,
        },
{
    match outcome {
        JwtAuthOutcome::MissingToken => Some(
            JwtRejection {
                status: 401,
                flag: copy_str("JWT"),
                body: copy_str("missing JWT token"),
                records_route: true,
            },
        ),
        JwtAuthOutcome::ValidatorUnavailable(e) => {
            let mut body = copy_str("JWT validator error: ");
            push_str_chars(&mut body, e.as_str());
            Some(JwtRejection { status: 500, flag: copy_str("JWT"), body, records_route: false })
        },
        JwtAuthOutcome::Rejected(JwtError::Expired) => Some(
            JwtRejection {
                status: 401,
                flag: copy_str("JWT"),
                body: copy_str("JWT token expired"),
                records_route: true,
            },
        ),
        JwtAuthOutcome::Rejected(e) => {
            let mut body = copy_str("JWT validation failed: ");
            let message = e.message();
            push_str_chars(&mut body, message.as_str());
            Some(JwtRejection { status: 401, flag: copy_str("JWT"), body, records_route: true })
        },
        JwtAuthOutcome::Accepted => None,
    }
}

/// One key of a JWKS document.
#[derive(Debug, Clone)]
pub struct JwkKey {
    pub kid: String,
    pub kty: String,
    pub alg: Option<String>,
    pub n: String,
    pub e: String,
}

#[verifier::external_type_specification]
#[verifier::external_body]
pub struct ExDecodingKey(DecodingKey);

/// Whether jsonwebtoken accepts a modulus and an exponent as an RSA public
/// key: both decode as unpadded URL-safe base64.
pub open spec fn spec_rsa_components_accepted(modulus: Seq<char>, exponent: Seq<char>) -> bool {
    crate::oidc::spec_base64_url_decode(modulus) is Ok && crate::oidc::spec_base64_url_decode(
        exponent,
    ) is Ok
}

/// `DecodingKey::from_rsa_components`; `None` when jsonwebtoken refuses the
/// components.
#[verifier::external_body]
fn decoding_key_from_rsa_components(modulus: &str, exponent: &str) -> (key: Option<DecodingKey>)
    ensures
        key is Some == spec_rsa_components_accepted(modulus@, exponent@),
{
    DecodingKey::from_rsa_components(modulus, exponent).ok()
}

/// A decoding key together with the RSA components it was built from.
pub struct RsaDecodingKey {
    modulus: String,
    exponent: String,
    key: DecodingKey,
}

impl RsaDecodingKey {
    /// The modulus (base64url) the key was built from.
    pub closed spec fn modulus(&self) -> Seq<char> {
        self.modulus@
    }

    /// The exponent (base64url) the key was built from.
    pub closed spec fn exponent(&self) -> Seq<char> {
        self.exponent@
    }

    /// The key built from the components, when jsonwebtoken accepts them.
    pub fn from_components(modulus: &str, exponent: &str) -> (out: Option<RsaDecodingKey>)
        ensures
            out is Some == spec_rsa_components_accepted(modulus@, exponent@),
            out is Some ==> out->0.modulus() == modulus@ && out->0.exponent() == exponent@,
    {
        match decoding_key_from_rsa_components(modulus, exponent) {
            Some(key) => Some(
                RsaDecodingKey { modulus: copy_str(modulus), exponent: copy_str(exponent), key },
            ),
            None => None,
        }
    }

    /// The jsonwebtoken key, for checking signatures.
    pub fn decoding_key(&self) -> &DecodingKey {
        &self.key
    }
}

/// A key of the JWKS that becomes a decoding key: an RSA key whose
/// components jsonwebtoken accepts.
pub open spec fn spec_usable_jwk(k: JwkKey) -> bool {
    k.kty@ == "RSA"@ && spec_rsa_components_accepted(k.n@, k.e@)
}

/// The usable keys, in document order.
pub open spec fn spec_usable_keys(keys: Seq<JwkKey>) -> Seq<JwkKey>
    decreases keys.len(),
{
    if keys.len() == 0 {
        Seq::empty()
    } else {
        let rest = spec_usable_keys(keys.drop_last());
        if spec_usable_jwk(keys.last()) {
            rest.push(keys.last())
        } else {
            rest
        }
    }
}

/// Entry `entry` is the decoding key of `jwk`: its key id, and a key built
/// from its modulus and exponent.
pub open spec fn spec_key_of(entry: (String, RsaDecodingKey), jwk: JwkKey) -> bool {
    &&& entry.0@ == jwk.kid@
    &&& entry.1.modulus() == jwk.n@
    &&& entry.1.exponent() == jwk.e@
}

/// The decoding keys of a JWKS document, keyed by key id: keys that are not
/// RSA, or whose components are refused, are skipped; a document without any
/// usable key is an error. Each entry carries the key built from the
/// components of the JWK whose id it bears.
pub fn rsa_decoding_keys(keys: &[JwkKey]) -> (out: Result<Vec<(String, RsaDecodingKey)>, JwtError>)
    ensures
        match out {
            Ok(v) => spec_usable_keys(keys@).len() > 0 && v@.len() == spec_usable_keys(keys@).len()
                && forall|i: int|
                0 <= i < v@.len() ==> spec_key_of(#[trigger] v@[i], spec_usable_keys(keys@)[i]),
            Err(e) => spec_usable_keys(keys@).len() == 0 && e is JwksFetchFailed
                && e->JwksFetchFailed_0@ == "no valid RSA keys in JWKS response"@,
        },
{
    let mut out: Vec<(String, RsaDecodingKey)> = Vec::new();
    let rsa = str_chars("RSA");
    let mut i: usize = 0;
    while i < keys.len()
        invariant
            i <= keys@.len(),
            rsa@ == "RSA"@,
            out@.len() == spec_usable_keys(keys@.take(i as int)).len(),
            forall|j: int|
                0 <= j < out@.len() ==> spec_key_of(
                    #[trigger] out@[j],
                    spec_usable_keys(keys@.take(i as int))[j],
                ),
        decreases keys@.len() - i,
    {
        assert(keys@.take(i + 1).drop_last() =~= keys@.take(i as int));
        assert(keys@.take(i + 1).last() == keys@[i as int]);
        let key = &keys[i];
        let kty = str_chars(key.kty.as_str());
        if crate::text::chars_eq(kty.as_slice(), rsa.as_slice()) {
            match RsaDecodingKey::from_components(key.n.as_str(), key.e.as_str()) {
                Some(decoding_key) => {
                    out.push((copy_str(key.kid.as_str()), decoding_key));
                },
                None => {},
            }
        }
        i = i + 1;
    }
    assert(keys@.take(keys@.len() as int) =~= keys@);
    if out.len() == 0 {
        return Err(JwtError::JwksFetchFailed(copy_str("no valid RSA keys in JWKS response")));
    }
    Ok(out)
}

/// Where `kid` stands in a key list: its last entry, as a map filled in list
/// order keeps it.
pub fn find_decoding_key(keys: &[(String, RsaDecodingKey)], kid: &str) -> (index: Option<usize>)
    ensures
        match index {
            Some(i) => i < keys@.len() && keys@[i as int].0@ == kid@ && forall|j: int|
                i < j < keys@.len() ==> (#[trigger] keys@[j]).0@ != kid@,
            None => forall|j: int| 0 <= j < keys@.len() ==> (#[trigger] keys@[j]).0@ != kid@,
        },
{
    let want = str_chars(kid);
    let mut i: usize = keys.len();
    while i > 0
        invariant
            i <= keys@.len(),
            want@ == kid@,
            forall|j: int| i <= j < keys@.len() ==> (#[trigger] keys@[j]).0@ != kid@,
        decreases i,
    {
        let name = str_chars(keys[i - 1].0.as_str());
        if crate::text::chars_eq(name.as_slice(), want.as_slice()) {
            return Some(i - 1);
        }
        i = i - 1;
    }
    None
}

/// The `kid` of a token's header, or the text of jsonwebtoken's error when
/// the header cannot be decoded.
pub uninterp spec fn spec_token_header_kid(token: Seq<char>) -> Result<Option<Seq<char>>, Seq<char>>;

/// `jsonwebtoken::decode_header`, keeping the `kid` field; its error is
/// rendered with `Display`.
#[verifier::external_body]
fn decode_token_header_kid(token: &str) -> (out: Result<Option<String>, String>)
    ensures
        match out {
            Ok(Some(kid)) => spec_token_header_kid(token@) is Ok && spec_token_header_kid(
                token@,
            )->Ok_0 == Some(kid@),
            Ok(None) => spec_token_header_kid(token@) is Ok && spec_token_header_kid(token@)->Ok_0
                is None,
            Err(m) => spec_token_header_kid(token@) is Err && spec_token_header_kid(token@)->Err_0
                == m@,
        },
{
    match jsonwebtoken::decode_header(token) {
        Ok(header) => Ok(header.kid),
        Err(e) => Err(e.to_string()),
    }
}

pub open spec fn spec_token_key_id(token: Seq<char>) -> Result<Seq<char>, JwtError> {
    match spec_token_header_kid(token) {
        Ok(Some(kid)) => Ok(kid),
        _ => Err(JwtError::MissingToken),
    }
}

/// The key id a token asks for. An empty token is missing; an undecodable
/// header or one without `kid` makes the token invalid.
pub fn token_key_id(token: &str) -> (out: Result<String, JwtError>)
    ensures
        token@.len() == 0 ==> out == Err::<String, JwtError>(JwtError::MissingToken),
        token@.len() > 0 ==> match spec_token_header_kid(token@) {
            Ok(Some(kid)) => out is Ok && out->Ok_0@ == kid,
            Ok(None) => out is Err && out->Err_0 is InvalidToken && out->Err_0->InvalidToken_0@
                == "token header missing 'kid' claim"@,
            Err(m) => out is Err && out->Err_0 is InvalidToken && out->Err_0->InvalidToken_0@
                == "failed to decode header: "@ + m,
        },
{
    if token.is_empty() {
        return Err(JwtError::MissingToken);
    }
    match decode_token_header_kid(token) {
        Ok(Some(kid)) => Ok(kid),
        Ok(None) => Err(JwtError::InvalidToken(copy_str("token header missing 'kid' claim"))),
        Err(m) => {
            let mut message = copy_str("failed to decode header: ");
            push_str_chars(&mut message, m.as_str());
            Err(JwtError::InvalidToken(message))
        },
    }
}

/// A claim value as it is copied into a header: strings as they are, other
/// JSON values in their JSON text.
#[derive(Debug, Clone, PartialEq, Eq)]
pub enum ClaimValue {
    Text(String),
    Json(String),
}

pub open spec fn spec_claim_text(v: ClaimValue) -> Seq<char> {
    match v {
        ClaimValue::Text(s) => s@,
        ClaimValue::Json(s) => s@,
    }
}

/// The value of claim `name`, if the claims hold it.
pub open spec fn spec_claim_lookup(claims: Seq<(String, ClaimValue)>, name: Seq<char>) -> Option<
    ClaimValue,
> {
    if exists|k: int| 0 <= k < claims.len() && (#[trigger] claims[k]).0@ == name {
        let k = choose|k: int| 0 <= k < claims.len() && (#[trigger] claims[k]).0@ == name;
        Some(claims[k].1)
    } else {
        None
    }
}

/// Claim names of a JSON object are distinct.
pub open spec fn distinct_claims(claims: Seq<(String, ClaimValue)>) -> bool {
    forall|a: int, b: int|
        0 <= a < claims.len() && 0 <= b < claims.len() && a != b ==> (#[trigger] claims[a]).0@
            != (#[trigger] claims[b]).0@
}

fn lookup_claim(claims: &[(String, ClaimValue)], name: &str) -> (out: Option<String>)
    requires
        distinct_claims(claims@),
    ensures
        match spec_claim_lookup(claims@, name@) {
            Some(v) => out is Some && out->0@ == spec_claim_text(v),
            None => out is None,
        },
{
    let want = str_chars(name);
    let mut k: usize = 0;
    while k < claims.len()
        invariant
            k <= claims@.len(),
            want@ == name@,
            distinct_claims(claims@),
            forall|j: int| 0 <= j < k ==> (#[trigger] claims@[j]).0@ != name@,
        decreases claims@.len() - k,
    {
        let claim_name = str_chars(claims[k].0.as_str());
        if crate::text::chars_eq(claim_name.as_slice(), want.as_slice()) {
            assert(claims@[k as int].0@ == name@);
            let ghost chosen = choose|j: int| 0 <= j < claims@.len() && (#[trigger] claims@[j]).0@ == name@;
            assert(claims@[chosen].0@ == name@);
            assert(chosen == k);
            let text = match &claims[k].1 {
                ClaimValue::Text(s) => copy_str(s.as_str()),
                ClaimValue::Json(s) => copy_str(s.as_str()),
            };
            return Some(text);
        }
        k = k + 1;
    }
    None
}

/// `entry` is what `mapping` takes from the claims: its header, and the
/// claim's text.
pub open spec fn mapped_entry(
    claims: Seq<(String, ClaimValue)>,
    mapping: ClaimToHeader,
    entry: (String, String),
) -> bool {
    &&& entry.0@ == mapping.header@
    &&& spec_claim_lookup(claims, mapping.claim@) is Some
    &&& entry.1@ == spec_claim_text(spec_claim_lookup(claims, mapping.claim@)->0)
}

/// `entry` is what one of the mappings takes from the claims.
pub open spec fn entry_from_some_mapping(
    claims: Seq<(String, ClaimValue)>,
    mappings: Seq<ClaimToHeader>,
    entry: (String, String),
) -> bool {
    exists|m: int| 0 <= m < mappings.len() && #[trigger] mapped_entry(claims, mappings[m], entry)
}

/// The header values the mappings take from the claims, in mapping order:
/// one `(header, claim text)` per mapping whose claim the token holds.
pub open spec fn spec_claim_headers(claims: Seq<(String, ClaimValue)>, mappings: Seq<ClaimToHeader>) -> Seq<
    (Seq<char>, Seq<char>),
>
    decreases mappings.len(),
{
    if mappings.len() == 0 {
        Seq::empty()
    } else {
        let rest = spec_claim_headers(claims, mappings.drop_last());
        match spec_claim_lookup(claims, mappings.last().claim@) {
            Some(v) => rest.push((mappings.last().header@, spec_claim_text(v))),
            None => rest,
        }
    }
}

/// The header values the configured mappings take from a token's claims, in
/// mapping order: one entry per mapping whose claim the token holds.
pub fn claims_to_header_values(claims: &[(String, ClaimValue)], mappings: &[ClaimToHeader]) -> (out:
    Vec<(String, String)>)
    requires
        distinct_claims(claims@),
    ensures
        out@.map_values(|e: (String, String)| (e.0@, e.1@)) == spec_claim_headers(claims@, mappings@),
{
    let mut out: Vec<(String, String)> = Vec::new();
    let mut m: usize = 0;
    while m < mappings.len()
        invariant
            m <= mappings@.len(),
            distinct_claims(claims@),
            out@.map_values(|e: (String, String)| (e.0@, e.1@)) == spec_claim_headers(
                claims@,
                mappings@.take(m as int),
            ),
        decreases mappings@.len() - m,
    {
        assert(mappings@.take(m + 1).drop_last() =~= mappings@.take(m as int));
        assert(mappings@.take(m + 1).last() == mappings@[m as int]);
        let mapping = &mappings[m];
        let found = lookup_claim(claims, mapping.claim.as_str());
        if let Some(value) = found {
            let ghost before = out@.map_values(|e: (String, String)| (e.0@, e.1@));
            out.push((copy_str(mapping.header.as_str()), value));
            assert(out@.map_values(|e: (String, String)| (e.0@, e.1@)) =~= before.push(
                (mapping.header@, spec_claim_text(spec_claim_lookup(claims@, mapping.claim@)->0)),
            ));
        }
        m = m + 1;
    }
    assert(mappings@.take(mappings@.len() as int) =~= mappings@);
    out
}

/// The signature algorithms a token may be checked with.
#[derive(Debug, Clone, Copy, PartialEq, Eq)]
pub enum SignatureAlgorithm {
    Rs256,
}

/// An optional text, as characters.
pub open spec fn text_opt(t: Option<&str>) -> Option<Seq<char>> {
    match t {
        Some(s) => Some(s@),
        None => None,
    }
}

/// What jsonwebtoken vouches for when it accepts a token whose claims are
/// a JSON object, stated over the claims it hands back: the names are
/// distinct; `exp` is present (it is always required); a string `iss` is the
/// configured issuer; when the audience is checked, a string `aud` is the
/// configured audience, and with no audience configured there is no string
/// `aud` (such a token is refused).
pub open spec fn spec_accepted_claims(
    claims: Seq<(String, ClaimValue)>,
    issuer: Option<Seq<char>>,
    check_audience: bool,
    audience: Option<Seq<char>>,
) -> bool {
    &&& distinct_claims(claims)
    &&& spec_claim_lookup(claims, "exp"@) is Some
    &&& (issuer matches Some(i) && spec_claim_lookup(claims, "iss"@) matches Some(
        ClaimValue::Text(t),
    ) ==> t@ == i)
    &&& (check_audience ==> (audience matches Some(a) && spec_claim_lookup(claims, "aud"@) matches Some(
        ClaimValue::Text(t),
    ) ==> t@ == a))
    &&& (check_audience && audience is None ==> !(spec_claim_lookup(claims, "aud"@) matches Some(
        ClaimValue::Text(_),
    )))
}

/// Claims as plain values: each name, whether the value is a JSON string,
/// and its text.
pub open spec fn claims_view(claims: Seq<(String, ClaimValue)>) -> Seq<(Seq<char>, bool, Seq<char>)> {
    claims.map_values(|e: (String, ClaimValue)| (e.0@, e.1 is Text, spec_claim_text(e.1)))
}

/// What jsonwebtoken's `decode` gives for a token checked against the RSA
/// key of these components with this algorithm, this issuer when given, and
/// the audience rule when asked for (with this audience when given), with
/// expiry not checked: the claims (`None` when they are not a JSON object),
/// or the error's text.
pub uninterp spec fn spec_decoded_claims(
    token: Seq<char>,
    modulus: Seq<char>,
    exponent: Seq<char>,
    algorithm: SignatureAlgorithm,
    issuer: Option<Seq<char>>,
    check_audience: bool,
    audience: Option<Seq<char>>,
) -> Result<Option<Seq<(Seq<char>, bool, Seq<char>)>>, Seq<char>>;

/// `jsonwebtoken::decode` into a JSON value with `Validation::new(algorithm)`,
/// expiry not checked (`validate_exp` off, so the outcome rests on the
/// token, key and settings alone), `validate_aud` as asked, and the issuer
/// and audience (when given) as `set_issuer`/`set_audience` set them. A claims object is turned into
/// named values (strings as they are, other values as JSON text); other
/// claims give `None`. An error gives its text.
#[verifier::external_body]
fn decode_token(
    token: &str,
    key: &RsaDecodingKey,
    algorithm: SignatureAlgorithm,
    issuer: Option<&str>,
    check_audience: bool,
    audience: Option<&str>,
) -> (out: Result<Option<Vec<(String, ClaimValue)>>, String>)
    ensures
        ({
            let d = spec_decoded_claims(
                token@,
                key.modulus(),
                key.exponent(),
                algorithm,
                text_opt(issuer),
                check_audience,
                text_opt(audience),
            );
            match out {
                Ok(Some(c)) => d is Ok && d->Ok_0 == Some(claims_view(c@)),
                Ok(None) => d is Ok && d->Ok_0 is None,
                Err(m) => d is Err && d->Err_0 == m@,
            }
        }),
        out matches Ok(Some(c)) ==> spec_accepted_claims(
            c@,
            text_opt(issuer),
            check_audience,
            text_opt(audience),
        ),
{
    let mut validation = Validation::new(match algorithm { SignatureAlgorithm::Rs256 => Algorithm::RS256 });
    validation.validate_exp = false;
    validation.validate_aud = check_audience;
    validation.iss = issuer.map(|i| [i.to_string()].into());
    validation.aud = audience.map(|a| [a.to_string()].into());
    decode::<Value>(token, &key.key, &validation).map(|data| data.claims.as_object().map(|object| object.iter().map(|(name, value)| (name.clone(), match value {
        Value::String(s) => ClaimValue::Text(s.clone()),
        other => ClaimValue::Json(other.to_string()),
    })).collect())).map_err(|e| e.to_string())
}

/// `jsonwebtoken::decode` with `Validation::new(algorithm)` (expiry checked
/// against the clock, 60 seconds of leeway): whether it refuses the token as
/// expired. It reads the clock, so nothing is claimed of the answer.
#[verifier::external_body]
fn expired_by_clock(token: &str, key: &RsaDecodingKey, algorithm: SignatureAlgorithm) -> bool {
    let validation = Validation::new(match algorithm { SignatureAlgorithm::Rs256 => Algorithm::RS256 });
    match decode::<Value>(token, &key.key, &validation) {
        Err(e) => matches!(e.kind(), ErrorKind::ExpiredSignature),
        Ok(_) => false,
    }
}

/// The text of the last claim named `name`, in a claims view.
pub open spec fn spec_view_text(cv: Seq<(Seq<char>, bool, Seq<char>)>, name: Seq<char>) -> Option<Seq<char>>
    decreases cv.len(),
{
    if cv.len() == 0 {
        None
    } else if cv.last().0 == name {
        Some(cv.last().2)
    } else {
        spec_view_text(cv.drop_last(), name)
    }
}

fn claim_text(claims: &[(String, ClaimValue)], name: &str) -> (out: Option<String>)
    ensures
        match spec_view_text(claims_view(claims@), name@) {
            Some(t) => out is Some && out->0@ == t,
            None => out is None,
        },
{
    let mut i: usize = claims.len();
    let ghost cv = claims_view(claims@);
    assert(cv.take(i as int) =~= cv);
    while i > 0
        invariant
            i <= claims@.len(),
            cv == claims_view(claims@),
            spec_view_text(cv, name@) == spec_view_text(cv.take(i as int), name@),
        decreases i,
    {
        assert(cv.take(i as int).drop_last() =~= cv.take(i - 1));
        assert(cv.take(i as int).last() == cv[i - 1]);
        if crate::text::str_eq(claims[i - 1].0.as_str(), name) {
            return match &claims[i - 1].1 {
                ClaimValue::Text(t) => Some(copy_str(t.as_str())),
                ClaimValue::Json(t) => Some(copy_str(t.as_str())),
            };
        }
        i = i - 1;
    }
    assert(cv.take(0) =~= Seq::<(Seq<char>, bool, Seq<char>)>::empty());
    None
}

/// Whether a token's `exp` lies more than the 60 seconds of leeway before
/// `now`: `None` when the claims hold no `exp` that is a NumericDate.
pub open spec fn spec_expired_at(cv: Seq<(Seq<char>, bool, Seq<char>)>, now_secs: u64) -> Option<bool> {
    match spec_view_text(cv, "exp"@) {
        Some(t) => match spec_numeric_date(t) {
            Some(v) => Some(v + 60 < now_secs),
            None => None,
        },
        None => None,
    }
}

/// What the issuer- and audience-checked decode leads to: its error as an
/// invalid token, no headers for claims that are not an object, else the
/// mapped claims of an object with exactly those claims.
pub open spec fn spec_checked_outcome(
    full: Result<Option<Seq<(Seq<char>, bool, Seq<char>)>>, Seq<char>>,
    mappings: Seq<ClaimToHeader>,
    out: Result<Vec<(String, String)>, JwtError>,
) -> bool {
    match full {
        Err(m) => out is Err && out->Err_0 is InvalidToken && out->Err_0->InvalidToken_0@ == m,
        Ok(None) => out is Ok && out->Ok_0@.len() == 0,
        Ok(Some(cv)) => out is Ok && exists|c: Seq<(String, ClaimValue)>|
            claims_view(c) == cv && distinct_claims(c) && out->Ok_0@.map_values(
                |e: (String, String)| (e.0@, e.1@),
            ) == #[trigger] spec_claim_headers(c, mappings),
    }
}

/// Checks a token's RS256 signature against `key` and its expiry against
/// `now_secs` (60 seconds of leeway), then the configured issuer and
/// audience, in the order jsonwebtoken does, and gives the header values the
/// mappings take from its claims:
/// - a token jsonwebtoken refuses is an invalid token with its message;
/// - a token whose `exp` lies before `now_secs` by more than the leeway is
///   expired; one whose `exp` is not a NumericDate is invalid;
/// - then the issuer and audience decide, as `spec_checked_outcome` says.
/// A token whose claims are not a JSON object has its expiry judged by
/// jsonwebtoken against the clock.
pub fn decode_token_claims(
    token: &str,
    key: &RsaDecodingKey,
    issuer: Option<&str>,
    audience: Option<&str>,
    now_secs: u64,
    mappings: &[ClaimToHeader],
) -> (out: Result<Vec<(String, String)>, JwtError>)
    ensures
        ({
            let plain = spec_decoded_claims(
                token@,
                key.modulus(),
                key.exponent(),
                SignatureAlgorithm::Rs256,
                None,
                false,
                None,
            );
            let full = spec_decoded_claims(
                token@,
                key.modulus(),
                key.exponent(),
                SignatureAlgorithm::Rs256,
                text_opt(issuer),
                true,
                text_opt(audience),
            );
            match plain {
                Err(m) => out is Err && out->Err_0 is InvalidToken && out->Err_0->InvalidToken_0@
                    == m,
                Ok(Some(cv)) => match spec_expired_at(cv, now_secs) {
                    None => out is Err && out->Err_0 is InvalidToken
                        && out->Err_0->InvalidToken_0@ == "token exp claim is not a NumericDate"@,
                    Some(true) => out is Err && out->Err_0 is Expired,
                    Some(false) => spec_checked_outcome(full, mappings@, out),
                },
                Ok(None) => (out is Err && out->Err_0 is Expired) || spec_checked_outcome(
                    full,
                    mappings@,
                    out,
                ),
            }
        }),
{
    let plain = decode_token(token, key, SignatureAlgorithm::Rs256, None, false, None);
    match plain {
        Err(m) => {
            return Err(JwtError::InvalidToken(m));
        },
        Ok(Some(claims)) => {
            let seconds = match claim_text(claims.as_slice(), "exp") {
                Some(t) => numeric_date_seconds(t.as_str()),
                None => None,
            };
            match seconds {
                None => {
                    return Err(
                        JwtError::InvalidToken(copy_str("token exp claim is not a NumericDate")),
                    );
                },
                Some(v) => {
                    if (v as u128) + 60 < now_secs as u128 {
                        return Err(JwtError::Expired);
                    }
                },
            }
        },
        Ok(None) => {
            if expired_by_clock(token, key, SignatureAlgorithm::Rs256) {
                return Err(JwtError::Expired);
            }
        },
    }
    let full = decode_token(token, key, SignatureAlgorithm::Rs256, issuer, true, audience);
    match full {
        Err(m) => Err(JwtError::InvalidToken(m)),
        Ok(None) => Ok(Vec::new()),
        Ok(Some(claims)) => {
            Ok(claims_to_header_values(claims.as_slice(), mappings))
        },
    }
}

proof fn lemma_lookup_index(c: Seq<(String, ClaimValue)>, name: Seq<char>)
    ensures
        spec_claim_lookup(c, name) is Some ==> exists|k: int|
            0 <= k < c.len() && (#[trigger] c[k]).0@ == name && spec_claim_lookup(c, name)
                == Some(c[k].1),
{
}

/// The header values the mappings take from distinct claims depend on the
/// claims' names and texts only.
pub proof fn lemma_claim_headers_follow_view(
    a: Seq<(String, ClaimValue)>,
    b: Seq<(String, ClaimValue)>,
    mappings: Seq<ClaimToHeader>,
)
    requires
        distinct_claims(a),
        claims_view(a) == claims_view(b),
    ensures
        spec_claim_headers(a, mappings) == spec_claim_headers(b, mappings),
    decreases mappings.len(),
{
    if mappings.len() > 0 {
        lemma_claim_headers_follow_view(a, b, mappings.drop_last());
        let name = mappings.last().claim@;
        assert(a.len() == claims_view(a).len() && b.len() == claims_view(b).len());
        assert forall|k: int| 0 <= k < a.len() implies (#[trigger] a[k]).0@ == b[k].0@
            && spec_claim_text(a[k].1) == spec_claim_text(b[k].1) by {
            assert(claims_view(a)[k] == claims_view(b)[k]);
        }
        if exists|k: int| 0 <= k < a.len() && (#[trigger] a[k]).0@ == name {
            let ka = choose|k: int| 0 <= k < a.len() && (#[trigger] a[k]).0@ == name;
            assert(b[ka].0@ == name);
            assert(exists|k: int| 0 <= k < b.len() && (#[trigger] b[k]).0@ == name);
            lemma_lookup_index(b, name);
            let kb = choose|k: int|
                0 <= k < b.len() && (#[trigger] b[k]).0@ == name && spec_claim_lookup(b, name)
                    == Some(b[k].1);
            assert(a[kb].0@ == name);
            assert(ka == kb);
            assert(spec_claim_lookup(a, name) == Some(a[ka].1));
            assert(spec_claim_text(a[ka].1) == spec_claim_text(b[kb].1));
        } else {
            assert forall|k: int| 0 <= k < b.len() implies (#[trigger] b[k]).0@ != name by {
                assert(a[k].0@ == b[k].0@);
            }
            assert(spec_claim_lookup(a, name) is None);
            assert(spec_claim_lookup(b, name) is None);
        }
    }
}

/// What validating a token does next.
#[derive(Debug, Clone, PartialEq, Eq)]
pub enum JwtValidationAction {
    /// Stop with this error.
    Reject(JwtError),
    /// The cached keys are stale: fetch the key set (a failed fetch rejects
    /// with its error) before anything else.
    RefreshKeys,
    /// Look this key id up among the cached keys.
    LookUpKey(String),
    /// The key id is not cached: fetch the key set once more, then look again.
    RefetchForKey,
    /// Check the token with the key found.
    Decode,
}

/// The validation loop of the JWT filter. An empty token is missing, before
/// any fetch. Stale keys are refreshed once, first. Then the token's key id
/// is looked up; a miss refetches the key set once, and a second miss means
/// no key matches.
pub fn jwt_validation_step(
    token: &str,
    cache_stale: bool,
    refreshed: bool,
    key_found: Option<bool>,
    refetched: bool,
) -> (action: JwtValidationAction)
    ensures
        token@.len() == 0 ==> action == JwtValidationAction::Reject(JwtError::MissingToken),
        token@.len() > 0 && cache_stale && !refreshed ==> action == JwtValidationAction::RefreshKeys,
        token@.len() > 0 && !(cache_stale && !refreshed) ==> match key_found {
            Some(true) => action == JwtValidationAction::Decode,
            Some(false) if !refetched => action == JwtValidationAction::RefetchForKey,
            _ => match spec_token_header_kid(token@) {
                Ok(Some(kid)) => if key_found is Some {
                    action is Reject && action->Reject_0 is NoMatchingKey
                        && action->Reject_0->NoMatchingKey_0@ == kid
                } else {
                    action is LookUpKey && action->LookUpKey_0@ == kid
                },
                Ok(None) => action is Reject && action->Reject_0 is InvalidToken
                    && action->Reject_0->InvalidToken_0@ == "token header missing 'kid' claim"@,
                Err(m) => action is Reject && action->Reject_0 is InvalidToken
                    && action->Reject_0->InvalidToken_0@ == "failed to decode header: "@ + m,
            },
        },
{
    if token.is_empty() {
        return JwtValidationAction::Reject(JwtError::MissingToken);
    }
    if cache_stale && !refreshed {
        return JwtValidationAction::RefreshKeys;
    }
    match key_found {
        Some(true) => return JwtValidationAction::Decode,
        Some(false) => {
            if !refetched {
                return JwtValidationAction::RefetchForKey;
            }
        },
        None => {},
    }
    match token_key_id(token) {
        Ok(kid) => match key_found {
            Some(_) => JwtValidationAction::Reject(JwtError::NoMatchingKey(kid)),
            None => JwtValidationAction::LookUpKey(kid),
        },
        Err(e) => JwtValidationAction::Reject(e),
    }
}

/// The request headers after a valid token: each mapped claim replaces the
/// fields of its header name, in order; a name or value that is not valid
/// HTTP is skipped.
pub open spec fn spec_with_claim_headers(h: HeaderSeq, values: Seq<(String, String)>) -> HeaderSeq
    decreases values.len(),
{
    if values.len() == 0 {
        h
    } else {
        let v = values.last();
        let prev = spec_with_claim_headers(h, values.drop_last());
        if spec_valid_header_name(v.0@) && spec_valid_header_value(v.1@) {
            inserted(prev, v.0@, v.1@)
        } else {
            prev
        }
    }
}

/// Sets the header values a valid token gives on the request, skipping
/// those http refuses.
pub fn insert_claim_headers(headers: &mut HeaderList, values: &[(String, String)])
    ensures
        final(headers)@ == spec_with_claim_headers(old(headers)@, values@),
{
    let ghost start = headers@;
    let mut i: usize = 0;
    while i < values.len()
        invariant
            i <= values@.len(),
            headers@ == spec_with_claim_headers(start, values@.take(i as int)),
        decreases values@.len() - i,
    {
        assert(values@.take(i + 1).drop_last() =~= values@.take(i as int));
        assert(values@.take(i + 1).last() == values@[i as int]);
        let name_ok = header_name_is_valid(values[i].0.as_str());
        let value_ok = header_value_is_valid(values[i].1.as_str());
        if name_ok && value_ok {
            headers.insert(values[i].0.as_str(), values[i].1.as_str());
        }
        i = i + 1;
    }
    assert(values@.take(values@.len() as int) =~= values@);
}

} // verus!
