//! OpenID Connect authorization-code login: URL and query encoding, the
//! session cookie and its HMAC signature, and the responses of the flow.
use crate::headers::HeaderSeq;
use crate::response::HttpResponse;
use crate::text::{
    copy_str, decimal, push_chars, push_decimal, push_str_chars, spec_split, spec_split_once,
    split_on, split_once_chars, str_chars, string_from_chars, trim_chars, trim_ws,
};
use base64::Engine;
use hmac::Mac;
use sha2::Digest;
use vstd::prelude::*;

verus! {

/// Bytes that URL encoding leaves as they are: ASCII letters, digits and
/// `-`, `_`, `.`, `~`.
pub open spec fn is_unreserved(b: u8) -> bool {
    (65 <= b && b <= 90) || (97 <= b && b <= 122) || (48 <= b && b <= 57) || b == 45 || b == 95
        || b == 46 || b == 126
}

/// An uppercase hexadecimal digit.
pub open spec fn hex_upper(d: nat) -> char {
    if d < 10 {
        ((48 + d) as u8) as char
    } else {
        ((55 + d) as u8) as char
    }
}

pub open spec fn spec_url_encode_byte(b: u8) -> Seq<char> {
    if is_unreserved(b) {
        seq![b as char]
    } else {
        seq!['%', hex_upper((b / 16) as nat), hex_upper((b % 16) as nat)]
    }
}

/// Percent-encoding of bytes: unreserved bytes stay, others become `%XX`.
pub open spec fn spec_url_encode(bytes: Seq<u8>) -> Seq<char>
    decreases bytes.len(),
{
    if bytes.len() == 0 {
        Seq::empty()
    } else {
        spec_url_encode(bytes.drop_last()) + spec_url_encode_byte(bytes.last())
    }
}

fn hex_digit_upper(d: u8) -> (c: char)
    requires
        d < 16,
    ensures
        c == hex_upper(d as nat),
{
    if d < 10 {
        (48 + d) as char
    } else {
        (55 + d) as char
    }
}

/// Percent-encodes the UTF-8 bytes of `s`.
pub fn url_encode(s: &str) -> (out: String)
    ensures
        out@ == spec_url_encode(vstd::utf8::encode_utf8(s@)),
{
    let bytes = s.as_bytes();
    let mut out = String::new();
    let mut i: usize = 0;
    while i < bytes.len()
        invariant
            i <= bytes@.len(),
            bytes@ == vstd::utf8::encode_utf8(s@),
            out@ == spec_url_encode(bytes@.take(i as int)),
        decreases bytes@.len() - i,
    {
        let b = bytes[i];
        assert(bytes@.take(i + 1).drop_last() =~= bytes@.take(i as int));
        assert(bytes@.take(i + 1).last() == b);
        if (65 <= b && b <= 90) || (97 <= b && b <= 122) || (48 <= b && b <= 57) || b == 45 || b == 95
            || b == 46 || b == 126 {
            out.push(b as char);
            assert(out@ =~= spec_url_encode(bytes@.take(i as int)) + seq![b as char]);
        } else {
            out.push('%');
            out.push(hex_digit_upper(b / 16));
            out.push(hex_digit_upper(b % 16));
            assert(out@ =~= spec_url_encode(bytes@.take(i as int)) + spec_url_encode_byte(b));
        }
        i = i + 1;
    }
    assert(bytes@.take(bytes@.len() as int) =~= bytes@);
    out
}

/// The value of a hexadecimal digit in either case.
pub open spec fn hex_value(c: char) -> Option<u8> {
    if '0' <= c && c <= '9' {
        Some(((c as u32) - 48) as u8)
    } else if 'a' <= c && c <= 'f' {
        Some(((c as u32) - 87) as u8)
    } else if 'A' <= c && c <= 'F' {
        Some(((c as u32) - 55) as u8)
    } else {
        None
    }
}

/// `u8::from_str_radix(h, 16)` for texts of at most two characters: an
/// optional `+` before one digit, or two digits.
pub open spec fn spec_hex_byte(h: Seq<char>) -> Option<u8> {
    if h.len() == 0 {
        None
    } else if h.len() == 1 {
        hex_value(h[0])
    } else if h[0] == '+' {
        if h.len() == 2 {
            hex_value(h[1])
        } else {
            None
        }
    } else if h.len() == 2 {
        match (hex_value(h[0]), hex_value(h[1])) {
            (Some(a), Some(b)) => Some((a * 16 + b) as u8),
            _ => None,
        }
    } else {
        None
    }
}

fn hex_char_value(c: char) -> (v: Option<u8>)
    ensures
        v == hex_value(c),
{
    if '0' <= c && c <= '9' {
        Some(((c as u32) - 48) as u8)
    } else if 'a' <= c && c <= 'f' {
        Some(((c as u32) - 87) as u8)
    } else if 'A' <= c && c <= 'F' {
        Some(((c as u32) - 55) as u8)
    } else {
        None
    }
}

fn hex_byte(h: &[char]) -> (v: Option<u8>)
    requires
        h@.len() <= 2,
    ensures
        v == spec_hex_byte(h@),
{
    if h.len() == 0 {
        None
    } else if h.len() == 1 {
        hex_char_value(h[0])
    } else if h[0] == '+' {
        hex_char_value(h[1])
    } else {
        match (hex_char_value(h[0]), hex_char_value(h[1])) {
            (Some(a), Some(b)) => Some(a * 16 + b),
            _ => None,
        }
    }
}

/// Percent-decoding as the login flow reads query values: `%` with the
/// next two characters (fewer at the end) becomes the byte they spell, read
/// as a Latin-1 character; when they spell none they are kept with the `%`;
/// `+` becomes a space.
pub open spec fn spec_url_decode(s: Seq<char>) -> Seq<char>
    decreases s.len(),
{
    if s.len() == 0 {
        Seq::empty()
    } else if s[0] == '%' {
        let end = if s.len() < 3 {
            s.len() as int
        } else {
            3
        };
        let hex = s.subrange(1, end);
        let rest = s.subrange(end, s.len() as int);
        match spec_hex_byte(hex) {
            Some(b) => seq![b as char] + spec_url_decode(rest),
            None => seq!['%'] + hex + spec_url_decode(rest),
        }
    } else if s[0] == '+' {
        seq![' '] + spec_url_decode(s.drop_first())
    } else {
        seq![s[0]] + spec_url_decode(s.drop_first())
    }
}

pub fn url_decode(s: &str) -> (out: String)
    ensures
        out@ == spec_url_decode(s@),
{
    let chars = str_chars(s);
    let n = chars.len();
    let mut out = String::new();
    let mut i: usize = 0;
    assert(chars@.subrange(0, n as int) =~= chars@);
    assert(out@ + spec_url_decode(s@) =~= spec_url_decode(s@));
    while i < n
        invariant
            i <= n == chars@.len(),
            chars@ == s@,
            out@ + spec_url_decode(chars@.subrange(i as int, n as int)) == spec_url_decode(s@),
        decreases n - i,
    {
        let ghost rest = chars@.subrange(i as int, n as int);
        let ghost before = out@;
        let c = chars[i];
        if c == '%' {
            let end = if n - i < 3 {
                n
            } else {
                i + 3
            };
            let hex = crate::text::chars_range(chars.as_slice(), i + 1, end);
            assert(hex@ =~= rest.subrange(1, (end - i) as int));
            assert(chars@.subrange(end as int, n as int) =~= rest.subrange((end - i) as int, rest.len() as int));
            match hex_byte(hex.as_slice()) {
                Some(b) => {
                    out.push(b as char);
                    assert(out@ =~= before + seq![b as char]);
                },
                None => {
                    out.push('%');
                    push_chars(&mut out, hex.as_slice());
                    assert(out@ =~= before + (seq!['%'] + hex@));
                },
            }
            i = end;
        } else if c == '+' {
            out.push(' ');
            assert(rest.drop_first() =~= chars@.subrange(i + 1, n as int));
            i = i + 1;
        } else {
            out.push(c);
            assert(rest.drop_first() =~= chars@.subrange(i + 1, n as int));
            i = i + 1;
        }
    }
    assert(chars@.subrange(n as int, n as int) =~= Seq::<char>::empty());
    out
}

/// Encoding then decoding gives the text back, for ASCII text.
pub proof fn lemma_url_decode_encode(bytes: Seq<u8>)
    requires
        forall|i: int| 0 <= i < bytes.len() ==> bytes[i] < 128,
    ensures
        spec_url_decode(spec_url_encode(bytes)) == bytes.map_values(|b: u8| b as char),
    decreases bytes.len(),
{
    lemma_url_decode_encode_from(bytes, 0);
    assert(bytes.subrange(0, bytes.len() as int) =~= bytes);
}

/// For ASCII text, decoding what encoding its bytes gave yields the text.
pub proof fn lemma_url_decode_encode_text(text: Seq<char>)
    requires
        vstd::utf8::is_ascii_chars(text),
    ensures
        spec_url_decode(spec_url_encode(vstd::utf8::encode_utf8(text))) == text,
{
    vstd::utf8::is_ascii_chars_encode_utf8(text);
    let bytes = vstd::utf8::encode_utf8(text);
    assert forall|i: int| 0 <= i < bytes.len() implies bytes[i] < 128 by {
        let c = text[i];
        assert('\0' <= c <= '\u{7f}');
        assert(c as u8 == bytes[i]);
        assert((c as u32) < 128);
    }
    lemma_url_decode_encode(bytes);
    assert forall|i: int| 0 <= i < text.len() implies bytes.map_values(|b: u8| b as char)[i]
        == text[i] by {
        let c = text[i];
        assert(c as u8 == bytes[i]);
        assert((c as u32) < 128);
    }
    assert(bytes.map_values(|b: u8| b as char) =~= text);
}

/// A character URL encoding writes: an ASCII letter or digit, `-`, `_`,
/// `.`, `~`, or `%`.
pub open spec fn is_url_encoded_char(c: char) -> bool {
    ('A' <= c && c <= 'Z') || ('a' <= c && c <= 'z') || ('0' <= c && c <= '9') || c == '-' || c
        == '_' || c == '.' || c == '~' || c == '%'
}

/// URL encoding writes only unreserved characters and `%XX` escapes (with
/// upper-case hex digits).
pub proof fn lemma_url_encode_charset(bytes: Seq<u8>)
    ensures
        forall|i: int|
            0 <= i < spec_url_encode(bytes).len() ==> is_url_encoded_char(
                #[trigger] spec_url_encode(bytes)[i],
            ),
    decreases bytes.len(),
{
    if bytes.len() > 0 {
        lemma_url_encode_charset(bytes.drop_last());
        let prev = spec_url_encode(bytes.drop_last());
        let last = spec_url_encode_byte(bytes.last());
        let b = bytes.last();
        assert forall|i: int| 0 <= i < last.len() implies is_url_encoded_char(#[trigger] last[i]) by {
            if is_unreserved(b) {
                assert(last[i] == b as char);
            } else {
                let hi = (b / 16) as nat;
                let lo = (b % 16) as nat;
                assert(hi < 16 && lo < 16);
            }
        }
        assert forall|i: int| 0 <= i < (prev + last).len() implies is_url_encoded_char(
            #[trigger] (prev + last)[i],
        ) by {
            if i < prev.len() {
                assert((prev + last)[i] == prev[i]);
            } else {
                assert((prev + last)[i] == last[i - prev.len()]);
            }
        }
    }
}

proof fn lemma_url_encode_split(bytes: Seq<u8>, i: int)
    requires
        0 <= i < bytes.len(),
    ensures
        spec_url_encode(bytes.subrange(i, bytes.len() as int)) == spec_url_encode_byte(bytes[i])
            + spec_url_encode(bytes.subrange(i + 1, bytes.len() as int)),
    decreases bytes.len() - i,
{
    let tail = bytes.subrange(i, bytes.len() as int);
    if i + 1 == bytes.len() {
        assert(tail.drop_last() =~= Seq::<u8>::empty());
        assert(bytes.subrange(i + 1, bytes.len() as int) =~= Seq::<u8>::empty());
        assert(spec_url_encode_byte(bytes[i]) + Seq::<char>::empty() =~= spec_url_encode_byte(
            bytes[i],
        ));
    } else {
        let shorter = bytes.drop_last();
        lemma_url_encode_split(shorter, i);
        assert(shorter.subrange(i, shorter.len() as int) =~= tail.drop_last());
        assert(shorter.subrange(i + 1, shorter.len() as int) =~= bytes.subrange(
            i + 1,
            bytes.len() as int,
        ).drop_last());
        assert(tail.last() == bytes.last());
        assert(bytes.subrange(i + 1, bytes.len() as int).last() == bytes.last());
        assert(spec_url_encode_byte(bytes[i]) + spec_url_encode(
            shorter.subrange(i + 1, shorter.len() as int),
        ) + spec_url_encode_byte(bytes.last()) =~= spec_url_encode_byte(bytes[i]) + (
        spec_url_encode(shorter.subrange(i + 1, shorter.len() as int)) + spec_url_encode_byte(
            bytes.last(),
        )));
    }
}

proof fn lemma_url_decode_encode_from(bytes: Seq<u8>, i: int)
    requires
        0 <= i <= bytes.len(),
        forall|k: int| 0 <= k < bytes.len() ==> bytes[k] < 128,
    ensures
        spec_url_decode(spec_url_encode(bytes.subrange(i, bytes.len() as int))) == bytes.subrange(
            i,
            bytes.len() as int,
        ).map_values(|b: u8| b as char),
    decreases bytes.len() - i,
{
    if i == bytes.len() {
        assert(bytes.subrange(i, bytes.len() as int) =~= Seq::<u8>::empty());
        assert(bytes.subrange(i, bytes.len() as int).map_values(|b: u8| b as char) =~= Seq::<
            char,
        >::empty());
    } else {
        lemma_url_decode_encode_from(bytes, i + 1);
        lemma_url_encode_split(bytes, i);
        let b = bytes[i];
        let rest = spec_url_encode(bytes.subrange(i + 1, bytes.len() as int));
        let all = spec_url_encode_byte(b) + rest;
        assert(bytes.subrange(i, bytes.len() as int).map_values(|x: u8| x as char) =~= seq![
            b as char,
        ] + bytes.subrange(i + 1, bytes.len() as int).map_values(|x: u8| x as char));
        if is_unreserved(b) {
            assert(all[0] == b as char);
            assert(b as char != '%' && b as char != '+');
            assert(all.drop_first() =~= rest);
        } else {
            let hi = (b / 16) as nat;
            let lo = (b % 16) as nat;
            assert(all.len() >= 3);
            assert(all[0] == '%');
            assert(all.subrange(1, 3) =~= seq![hex_upper(hi), hex_upper(lo)]);
            assert(all.subrange(3, all.len() as int) =~= rest);
            assert(hex_upper(hi) != '+');
            assert(hex_value(hex_upper(hi)) == Some(hi as u8));
            assert(hex_value(hex_upper(lo)) == Some(lo as u8));
            assert((hi * 16 + lo) as u8 == b);
        }
    }
}

/// The value of query parameter `name`: the first `name=value` pair, with
/// the value percent-decoded.
pub open spec fn spec_query_param_from(pairs: Seq<Seq<char>>, name: Seq<char>, i: int) -> Option<
    Seq<char>,
>
    decreases pairs.len() - i,
{
    if i < 0 || i >= pairs.len() {
        None
    } else {
        match spec_split_once(pairs[i], '=') {
            Some(kv) => if kv.0 == name {
                Some(spec_url_decode(kv.1))
            } else {
                spec_query_param_from(pairs, name, i + 1)
            },
            None => spec_query_param_from(pairs, name, i + 1),
        }
    }
}

pub open spec fn spec_query_param(query: Seq<char>, name: Seq<char>) -> Option<Seq<char>> {
    spec_query_param_from(spec_split(query, '&'), name, 0)
}

pub fn extract_query_param(query: &str, param_name: &str) -> (value: Option<String>)
    ensures
        match value {
            Some(v) => spec_query_param(query@, param_name@) == Some(v@),
            None => spec_query_param(query@, param_name@) is None,
        },
{
    let pairs = split_on(query, '&');
    let ghost views = pairs@.map_values(|l: Vec<char>| l@);
    let want = str_chars(param_name);
    let mut i: usize = 0;
    while i < pairs.len()
        invariant
            i <= pairs@.len(),
            views == pairs@.map_values(|l: Vec<char>| l@),
            views == spec_split(query@, '&'),
            want@ == param_name@,
            spec_query_param(query@, param_name@) == spec_query_param_from(views, param_name@, i as int),
        decreases pairs@.len() - i,
    {
        assert(views[i as int] == pairs@[i as int]@);
        if let Some((key, value)) = split_once_chars(pairs[i].as_slice(), '=') {
            if crate::text::chars_eq(key.as_slice(), want.as_slice()) {
                let text = string_from_chars(value.as_slice());
                return Some(url_decode(text.as_str()));
            }
        }
        i = i + 1;
    }
    None
}

/// The value of cookie `name` among `;`-separated items from index `i` on.
pub open spec fn spec_cookie_in_items(items: Seq<Seq<char>>, name: Seq<char>, i: int) -> Option<
    Seq<char>,
>
    decreases items.len() - i,
{
    if i < 0 || i >= items.len() {
        None
    } else {
        match spec_split_once(trim_ws(items[i]), '=') {
            Some(kv) => if kv.0 == name {
                Some(kv.1)
            } else {
                spec_cookie_in_items(items, name, i + 1)
            },
            None => spec_cookie_in_items(items, name, i + 1),
        }
    }
}

/// The value of cookie `name` in the `cookie` headers from index `i` on; a
/// header that is not text ends the search.
pub open spec fn spec_cookie_in_headers(values: Seq<Option<String>>, name: Seq<char>, i: int) -> Option<
    Seq<char>,
>
    decreases values.len() - i,
{
    if i < 0 || i >= values.len() {
        None
    } else {
        match values[i] {
            None => None,
            Some(v) => match spec_cookie_in_items(spec_split(v@, ';'), name, 0) {
                Some(found) => Some(found),
                None => spec_cookie_in_headers(values, name, i + 1),
            },
        }
    }
}

fn cookie_in_header(value: &str, name: &[char]) -> (found: Option<String>)
    ensures
        match found {
            Some(f) => spec_cookie_in_items(spec_split(value@, ';'), name@, 0) == Some(f@),
            None => spec_cookie_in_items(spec_split(value@, ';'), name@, 0) is None,
        },
{
    let items = split_on(value, ';');
    let ghost views = items@.map_values(|l: Vec<char>| l@);
    let mut i: usize = 0;
    while i < items.len()
        invariant
            i <= items@.len(),
            views == items@.map_values(|l: Vec<char>| l@),
            views == spec_split(value@, ';'),
            spec_cookie_in_items(views, name@, 0) == spec_cookie_in_items(views, name@, i as int),
        decreases items@.len() - i,
    {
        assert(views[i as int] == items@[i as int]@);
        let trimmed = trim_chars(items[i].as_slice());
        if let Some((key, val)) = split_once_chars(trimmed.as_slice(), '=') {
            if crate::text::chars_eq(key.as_slice(), name) {
                return Some(string_from_chars(val.as_slice()));
            }
        }
        i = i + 1;
    }
    None
}

/// The value of cookie `cookie_name` across the request's `cookie` headers,
/// given in order (`None` for a header whose value is not text).
pub fn extract_cookie(cookie_headers: &[Option<String>], cookie_name: &str) -> (found: Option<
    String,
>)
    ensures
        match found {
            Some(f) => spec_cookie_in_headers(cookie_headers@, cookie_name@, 0) == Some(f@),
            None => spec_cookie_in_headers(cookie_headers@, cookie_name@, 0) is None,
        },
{
    let name = str_chars(cookie_name);
    let mut i: usize = 0;
    while i < cookie_headers.len()
        invariant
            i <= cookie_headers@.len(),
            name@ == cookie_name@,
            spec_cookie_in_headers(cookie_headers@, cookie_name@, 0) == spec_cookie_in_headers(
                cookie_headers@,
                cookie_name@,
                i as int,
            ),
        decreases cookie_headers@.len() - i,
    {
        match &cookie_headers[i] {
            None => return None,
            Some(v) => {
                if let Some(found) = cookie_in_header(v.as_str(), name.as_slice()) {
                    return Some(found);
                }
            },
        }
        i = i + 1;
    }
    None
}

/// Within one header, the first item whose trimmed text splits at its first
/// `=` into `name` and `val` gives `val`, at whatever position it stands.
pub proof fn lemma_cookie_item_found(items: Seq<Seq<char>>, name: Seq<char>, j: int, val: Seq<char>)
    requires
        0 <= j < items.len(),
        spec_split_once(trim_ws(items[j]), '=') == Some((name, val)),
        forall|i: int|
            0 <= i < j ==> match #[trigger] spec_split_once(trim_ws(items[i]), '=') {
                Some(kv) => kv.0 != name,
                None => true,
            },
    ensures
        spec_cookie_in_items(items, name, 0) == Some(val),
{
    lemma_cookie_item_found_from(items, name, 0, j, val);
}

proof fn lemma_cookie_item_found_from(
    items: Seq<Seq<char>>,
    name: Seq<char>,
    start: int,
    j: int,
    val: Seq<char>,
)
    requires
        0 <= start <= j < items.len(),
        spec_split_once(trim_ws(items[j]), '=') == Some((name, val)),
        forall|i: int|
            start <= i < j ==> match #[trigger] spec_split_once(trim_ws(items[i]), '=') {
                Some(kv) => kv.0 != name,
                None => true,
            },
    ensures
        spec_cookie_in_items(items, name, start) == Some(val),
    decreases j - start,
{
    if start < j {
        lemma_cookie_item_found_from(items, name, start + 1, j, val);
        assert(match spec_split_once(trim_ws(items[start]), '=') {
            Some(kv) => kv.0 != name,
            None => true,
        });
    }
}

/// Every `cookie` header is searched in order: when the first `k` headers
/// are text and hold no cookie `name`, and header `k` holds it with value
/// `found`, the cookie's value is `found`, for a `k` at any position.
pub proof fn lemma_cookie_in_later_header(
    values: Seq<Option<String>>,
    name: Seq<char>,
    k: int,
    found: Seq<char>,
)
    requires
        0 <= k < values.len(),
        forall|j: int|
            0 <= j < k ==> (#[trigger] values[j]) is Some && spec_cookie_in_items(
                spec_split(values[j].unwrap()@, ';'),
                name,
                0,
            ) is None,
        values[k] is Some,
        spec_cookie_in_items(spec_split(values[k].unwrap()@, ';'), name, 0) == Some(found),
    ensures
        spec_cookie_in_headers(values, name, 0) == Some(found),
{
    lemma_cookie_in_headers_from(values, name, 0, k, found);
}

proof fn lemma_cookie_in_headers_from(
    values: Seq<Option<String>>,
    name: Seq<char>,
    start: int,
    k: int,
    found: Seq<char>,
)
    requires
        0 <= start <= k < values.len(),
        forall|j: int|
            start <= j < k ==> (#[trigger] values[j]) is Some && spec_cookie_in_items(
                spec_split(values[j].unwrap()@, ';'),
                name,
                0,
            ) is None,
        values[k] is Some,
        spec_cookie_in_items(spec_split(values[k].unwrap()@, ';'), name, 0) == Some(found),
    ensures
        spec_cookie_in_headers(values, name, start) == Some(found),
    decreases k - start,
{
    if start < k {
        lemma_cookie_in_headers_from(values, name, start + 1, k, found);
        assert(values[start] is Some);
    }
}

/// A cookie `name=val` standing first in header `k`, after `k` text headers
/// that hold no cookie `name`, is found with value `val`.
pub proof fn lemma_cookie_first_item_of_later_header(
    values: Seq<Option<String>>,
    name: Seq<char>,
    k: int,
    val: Seq<char>,
)
    requires
        0 <= k < values.len(),
        forall|j: int|
            0 <= j < k ==> (#[trigger] values[j]) is Some && spec_cookie_in_items(
                spec_split(values[j].unwrap()@, ';'),
                name,
                0,
            ) is None,
        values[k] is Some,
        spec_split(values[k].unwrap()@, ';').len() > 0,
        spec_split_once(trim_ws(spec_split(values[k].unwrap()@, ';')[0]), '=') == Some((name, val)),
    ensures
        spec_cookie_in_headers(values, name, 0) == Some(val),
{
    let items = spec_split(values[k].unwrap()@, ';');
    lemma_cookie_item_found(items, name, 0, val);
    lemma_cookie_in_later_header(values, name, k, val);
}

/// The session cookie's name: the configured one, or `_ntgw_oidc_session`.
pub fn effective_cookie_name(session_cookie_name: &str) -> (name: String)
    ensures
        name@ == (if session_cookie_name@.len() == 0 {
            "_ntgw_oidc_session"@
        } else {
            session_cookie_name@
        }),
{
    if session_cookie_name.is_empty() {
        copy_str("_ntgw_oidc_session")
    } else {
        copy_str(session_cookie_name)
    }
}

/// The OIDC settings of a security policy.
#[derive(Debug, Clone, Default)]
pub struct OidcAuthConfig {
    pub provider_authorization_url: String,
    pub provider_token_url: String,
    pub client_id: String,
    pub client_secret_ref: String,
    pub redirect_url: String,
    pub callback_path: String,
    pub scopes: Vec<String>,
    pub session_signing_key_ref: String,
    pub session_cookie_name: String,
}

/// The scopes requested: `openid` when none are configured, else the
/// configured ones separated by spaces.
pub fn oidc_scopes(scopes: &[String]) -> (out: String)
    ensures
        out@ == (if scopes@.len() == 0 {
            "openid"@
        } else {
            crate::text::seq_join(scopes@.map_values(|s: String| s@), " "@)
        }),
{
    if scopes.len() == 0 {
        copy_str("openid")
    } else {
        crate::text::join_strings(scopes, " ")
    }
}

/// The URL the user asked for: scheme, the `host` header (or `localhost`),
/// then path and query.
pub fn oidc_original_url(https: bool, host: Option<&str>, path_and_query: &str) -> (url: String)
    ensures
        url@ == (if https {
            "https"@
        } else {
            "http"@
        }) + "://"@ + match host {
            Some(h) => h@,
            None => "localhost"@,
        } + path_and_query@,
{
    let mut url = if https {
        copy_str("https")
    } else {
        copy_str("http")
    };
    push_str_chars(&mut url, "://");
    match host {
        Some(h) => push_str_chars(&mut url, h),
        None => push_str_chars(&mut url, "localhost"),
    }
    push_str_chars(&mut url, path_and_query);
    url
}

pub open spec fn enc(s: Seq<char>) -> Seq<char> {
    spec_url_encode(vstd::utf8::encode_utf8(s))
}

/// The provider URL the user is sent to for login, carrying the client id,
/// the scopes, the callback URL and the original URL as state.
pub fn authorization_url(config: &OidcAuthConfig, original_url: &str) -> (url: String)
    ensures
        url@ == config.provider_authorization_url@ + "?client_id="@ + enc(config.client_id@)
            + "&response_type=code&scope="@ + enc(
            if config.scopes@.len() == 0 {
                "openid"@
            } else {
                crate::text::seq_join(config.scopes@.map_values(|s: String| s@), " "@)
            },
        ) + "&redirect_uri="@ + enc(config.redirect_url@) + "&state="@ + enc(original_url@),
{
    let scopes = oidc_scopes(config.scopes.as_slice());
    let mut url = copy_str(config.provider_authorization_url.as_str());
    push_str_chars(&mut url, "?client_id=");
    let client_id = url_encode(config.client_id.as_str());
    push_str_chars(&mut url, client_id.as_str());
    push_str_chars(&mut url, "&response_type=code&scope=");
    let scope = url_encode(scopes.as_str());
    push_str_chars(&mut url, scope.as_str());
    push_str_chars(&mut url, "&redirect_uri=");
    let redirect = url_encode(config.redirect_url.as_str());
    push_str_chars(&mut url, redirect.as_str());
    push_str_chars(&mut url, "&state=");
    let state = url_encode(original_url);
    push_str_chars(&mut url, state.as_str());
    url
}

/// What the OIDC filter does with a request.
#[derive(Debug, Clone, Copy, PartialEq, Eq)]
pub enum OidcAction {
    /// The request is the provider's callback: finish the login.
    Callback,
    /// The request carries a valid session: let it through.
    Continue,
    /// Send the user to the provider to log in.
    Authorize,
}

pub fn oidc_action(path: &str, callback_path: &str, session_valid: bool) -> (action: OidcAction)
    ensures
        action == (if path@ == callback_path@ {
            OidcAction::Callback
        } else if session_valid {
            OidcAction::Continue
        } else {
            OidcAction::Authorize
        }),
{
    if crate::text::str_eq(path, callback_path) {
        OidcAction::Callback
    } else if session_valid {
        OidcAction::Continue
    } else {
        OidcAction::Authorize
    }
}

/// Where the callback sends the user: the `state` parameter, else the
/// configured redirect URL.
pub fn callback_redirect_target(query: &str, redirect_url: &str) -> (target: String)
    ensures
        target@ == match spec_query_param(query@, "state"@) {
            Some(s) => s,
            None => redirect_url@,
        },
{
    match extract_query_param(query, "state") {
        Some(s) => s,
        None => copy_str(redirect_url),
    }
}

/// The callback's 302: back to `location`, setting the session cookie.
pub fn oidc_callback_response(location: &str, cookie_name: &str, cookie_value: &str) -> (response:
    HttpResponse)
    ensures
        response.status == 302,
        response.headers@ == seq![
            ("location"@, location@),
            ("set-cookie"@, cookie_name@ + "="@ + cookie_value@ + "; Path=/; HttpOnly; SameSite=Lax"@),
            ("content-length"@, "0"@),
        ],
{
    let mut cookie = copy_str(cookie_name);
    push_str_chars(&mut cookie, "=");
    push_str_chars(&mut cookie, cookie_value);
    push_str_chars(&mut cookie, "; Path=/; HttpOnly; SameSite=Lax");
    let mut headers = crate::headers::HeaderList::new();
    headers.append("location", location);
    headers.append("set-cookie", cookie.as_str());
    headers.append("content-length", "0");
    HttpResponse { status: 302, headers }
}

/// An error of the login flow: `OIDC error: {message}` as plain text.
pub fn oidc_error_response(status: u16, message: &str) -> (out: (HttpResponse, String))
    ensures
        out.0.status == status,
        out.1@ == "OIDC error: "@ + message@,
        out.0.headers@ == seq![
            ("content-type"@, "text/plain"@),
            ("content-length"@, decimal((vstd::utf8::encode_utf8(out.1@).len() as usize) as nat)),
        ],
{
    let mut body = copy_str("OIDC error: ");
    push_str_chars(&mut body, message);
    let mut headers = crate::headers::HeaderList::new();
    headers.append("content-type", "text/plain");
    let mut len = String::new();
    push_decimal(&mut len, body.as_str().len() as u64);
    headers.append("content-length", len.as_str());
    (HttpResponse { status, headers }, body)
}

/// The head of an OIDC error answer with body `body`.
pub open spec fn spec_oidc_error_headers(body: Seq<char>) -> HeaderSeq {
    seq![
        ("content-type"@, "text/plain"@),
        ("content-length"@, decimal((vstd::utf8::encode_utf8(body).len() as usize) as nat)),
    ]
}

/// The first step of the provider's callback: the authorization code of
/// the query, or a 400 `missing authorization code` answer (with its body)
/// when there is none.
pub fn oidc_callback_code(query: &str) -> (out: Result<String, (HttpResponse, String)>)
    ensures
        match spec_query_param(query@, "code"@) {
            Some(code) => out is Ok && out->Ok_0@ == code,
            None => out is Err && out->Err_0.0.status == 400 && out->Err_0.1@ == "OIDC error: "@
                + "missing authorization code"@ && out->Err_0.0.headers@ == spec_oidc_error_headers(
                out->Err_0.1@,
            ),
        },
{
    match extract_query_param(query, "code") {
        Some(code) => Ok(code),
        None => Err(oidc_error_response(400, "missing authorization code")),
    }
}

/// The answer that ends the provider's callback, once the code was
/// exchanged (or not) and the session cookie made (or not): 500 `token
/// exchange failed` after a failed exchange; 500 `session creation failed`
/// when no cookie could be made; else a 302 to the `state` parameter (or
/// the configured redirect URL) that sets the cookie, with an empty body.
pub fn oidc_callback_outcome(
    query: &str,
    redirect_url: &str,
    cookie_name: &str,
    exchanged: bool,
    cookie: Result<String, String>,
) -> (out: (HttpResponse, String))
    ensures
        !exchanged ==> out.0.status == 500 && out.1@ == "OIDC error: "@ + "token exchange failed"@
            && out.0.headers@ == spec_oidc_error_headers(out.1@),
        exchanged && cookie is Err ==> out.0.status == 500 && out.1@ == "OIDC error: "@
            + "session creation failed"@ && out.0.headers@ == spec_oidc_error_headers(out.1@),
        exchanged && cookie is Ok ==> {
            let location = match spec_query_param(query@, "state"@) {
                Some(s) => s,
                None => redirect_url@,
            };
            &&& out.0.status == 302
            &&& out.1@.len() == 0
            &&& out.0.headers@ == seq![
                ("location"@, location),
                ("set-cookie"@, cookie_name@ + "="@ + cookie->Ok_0@ + "; Path=/; HttpOnly; SameSite=Lax"@),
                ("content-length"@, "0"@),
            ]
        },
{
    if !exchanged {
        return oidc_error_response(500, "token exchange failed");
    }
    match cookie {
        Ok(value) => {
            let target = callback_redirect_target(query, redirect_url);
            let response = oidc_callback_response(target.as_str(), cookie_name, value.as_str());
            (response, String::new())
        },
        Err(_) => oidc_error_response(500, "session creation failed"),
    }
}

/// The SHA-256 digest of some bytes.
pub uninterp spec fn spec_sha256(data: Seq<u8>) -> Seq<u8>;

/// `sha2::Sha256` over `data`.
#[verifier::external_body]
pub(crate) fn sha256(data: &[u8]) -> (digest: Vec<u8>)
    ensures
        digest@ == spec_sha256(data@),
{
    sha2::Sha256::digest(data).to_vec()
}

/// Unpadded URL-safe base64 of some bytes. Its alphabet (letters, digits,
/// `-`, `_`) has no `.`, and decoding it gives the bytes back.
pub uninterp spec fn spec_base64_url_encode(data: Seq<u8>) -> Seq<char>;

/// `base64::engine::general_purpose::URL_SAFE_NO_PAD.encode`.
#[verifier::external_body]
fn base64_url_encode(data: &[u8]) -> (text: String)
    ensures
        text@ == spec_base64_url_encode(data@),
        !crate::text::has_char(text@, '.'),
        spec_base64_url_decode(text@) is Ok && spec_base64_url_decode(text@)->Ok_0 == data@,
{
    base64::engine::general_purpose::URL_SAFE_NO_PAD.encode(data)
}

/// The bytes unpadded URL-safe base64 decodes a text to, or the text of
/// base64's error.
pub uninterp spec fn spec_base64_url_decode(text: Seq<char>) -> Result<Seq<u8>, Seq<char>>;

/// `base64::engine::general_purpose::URL_SAFE_NO_PAD.decode`, its error
/// rendered with `Display`.
#[verifier::external_body]
fn base64_url_decode(text: &str) -> (out: Result<Vec<u8>, String>)
    ensures
        match out {
            Ok(b) => spec_base64_url_decode(text@) is Ok && spec_base64_url_decode(text@)->Ok_0
                == b@,
            Err(m) => spec_base64_url_decode(text@) is Err && spec_base64_url_decode(text@)->Err_0
                == m@,
        },
{
    match base64::engine::general_purpose::URL_SAFE_NO_PAD.decode(text) {
        Ok(bytes) => Ok(bytes),
        Err(e) => Err(e.to_string()),
    }
}

/// The HMAC-SHA256 tag of `data` under `key`.
pub uninterp spec fn spec_hmac_sha256(key: Seq<u8>, data: Seq<u8>) -> Seq<u8>;

/// `Hmac::<Sha256>` over `data`. HMAC takes keys of any length, and the
/// crate's `new_from_slice` never fails; the empty tag of the unreachable
/// error arm is not claimed.
#[verifier::external_body]
fn hmac_sha256(key: &[u8], data: &[u8]) -> (tag: Vec<u8>)
    ensures
        tag@ == spec_hmac_sha256(key@, data@),
{
    match <hmac::Hmac<sha2::Sha256> as hmac::Mac>::new_from_slice(key) {
        Ok(mut mac) => {
            mac.update(data);
            mac.finalize().into_bytes().to_vec()
        },
        Err(_) => Vec::new(),
    }
}

/// `Mac::verify_slice`: the tag matches when it equals the full HMAC.
#[verifier::external_body]
fn hmac_sha256_verify(key: &[u8], data: &[u8], tag: &[u8]) -> (valid: bool)
    ensures
        valid == (tag@ == spec_hmac_sha256(key@, data@)),
{
    match <hmac::Hmac<sha2::Sha256> as hmac::Mac>::new_from_slice(key) {
        Ok(mut mac) => {
            mac.update(data);
            mac.verify_slice(tag).is_ok()
        },
        Err(_) => false,
    }
}

/// The fingerprint of an access token kept in the session: URL-safe base64
/// of its SHA-256.
pub fn hash_token(token: &str) -> (hash: String)
    ensures
        hash@ == spec_base64_url_encode(spec_sha256(vstd::utf8::encode_utf8(token@))),
{
    let digest = sha256(token.as_bytes());
    base64_url_encode(digest.as_slice())
}

pub open spec fn spec_session_cookie(payload: Seq<u8>, key: Seq<char>) -> Seq<char> {
    spec_base64_url_encode(payload) + "."@ + spec_base64_url_encode(
        spec_hmac_sha256(vstd::utf8::encode_utf8(key), payload),
    )
}

/// Signs a serialized session: `base64url(payload).base64url(hmac)`; a
/// missing signing key is an error.
pub fn create_session_cookie(payload_json: &[u8], signing_key: &str) -> (out: Result<String, String>)
    ensures
        signing_key@.len() == 0 ==> out is Err && out->Err_0@ == "session signing key not found"@,
        signing_key@.len() > 0 ==> out is Ok && out->Ok_0@ == spec_session_cookie(
            payload_json@,
            signing_key@,
        ),
        out is Ok ==> spec_signed_session_payload(out->Ok_0@, signing_key@) == Some(payload_json@),
{
    if signing_key.is_empty() {
        return Err(copy_str("session signing key not found"));
    }
    let tag = hmac_sha256(signing_key.as_bytes(), payload_json);
    let mut cookie = base64_url_encode(payload_json);
    let ghost encoded_payload = cookie@;
    push_str_chars(&mut cookie, ".");
    let signature = base64_url_encode(tag.as_slice());
    push_str_chars(&mut cookie, signature.as_str());
    proof {
        reveal_strlit(".");
        assert("."@ =~= seq!['.']);
        assert(cookie@ =~= encoded_payload + seq!['.'] + signature@);
        crate::text::lemma_first_index_after_prefix(encoded_payload, '.', signature@);
        let n = encoded_payload.len() as int;
        assert(cookie@.subrange(0, n) =~= encoded_payload);
        assert(cookie@.subrange(n + 1, cookie@.len() as int) =~= signature@);
    }
    Ok(cookie)
}

/// The signed payload of a session cookie: the cookie splits at its first
/// `.` into two base64url parts, and the second is the HMAC of the first.
pub open spec fn spec_signed_session_payload(cookie: Seq<char>, key: Seq<char>) -> Option<Seq<u8>> {
    match spec_split_once(cookie, '.') {
        None => None,
        Some(parts) => match (spec_base64_url_decode(parts.0), spec_base64_url_decode(parts.1)) {
            (Ok(payload), Ok(signature)) => if signature == spec_hmac_sha256(
                vstd::utf8::encode_utf8(key),
                payload,
            ) {
                Some(payload)
            } else {
                None
            },
            _ => None,
        },
    }
}

/// The payload of a session cookie whose signature checks out.
pub fn signed_session_payload(cookie_value: &str, signing_key: &str) -> (payload: Option<Vec<u8>>)
    ensures
        match payload {
            Some(p) => spec_signed_session_payload(cookie_value@, signing_key@) == Some(p@),
            None => spec_signed_session_payload(cookie_value@, signing_key@) is None,
        },
{
    let chars = str_chars(cookie_value);
    let (payload_part, signature_part) = match split_once_chars(chars.as_slice(), '.') {
        Some(parts) => parts,
        None => return None,
    };
    let payload_text = string_from_chars(payload_part.as_slice());
    let signature_text = string_from_chars(signature_part.as_slice());
    let payload = match base64_url_decode(payload_text.as_str()) {
        Ok(p) => p,
        Err(_) => return None,
    };
    let signature = match base64_url_decode(signature_text.as_str()) {
        Ok(s) => s,
        Err(_) => return None,
    };
    if hmac_sha256_verify(signing_key.as_bytes(), payload.as_slice(), signature.as_slice()) {
        Some(payload)
    } else {
        None
    }
}

/// What an OIDC session cookie signs: the user, when the session expires
/// (Unix seconds), and the fingerprint of the access token.
#[derive(Debug, Clone, PartialEq, Eq)]
pub struct OidcSessionPayload {
    pub sub: String,
    pub exp: u64,
    pub access_token_hash: String,
}

/// The session payload for a user's new session.
pub fn new_session_payload(sub: &str, exp: u64, access_token: &str) -> (payload: OidcSessionPayload)
    ensures
        payload.sub@ == sub@,
        payload.exp == exp,
        payload.access_token_hash@ == spec_base64_url_encode(
            spec_sha256(vstd::utf8::encode_utf8(access_token@)),
        ),
{
    OidcSessionPayload { sub: copy_str(sub), exp, access_token_hash: hash_token(access_token) }
}

/// Whether a session cookie lets the request through, given the payload its
/// signature vouches for (`None` when the signature or the payload's JSON
/// does not check out) and the time now: only a session that has not
/// expired does.
pub fn session_accepted(payload: &Option<OidcSessionPayload>, now_secs: u64) -> (accepted: bool)
    ensures
        accepted == (payload is Some && payload->0.exp > now_secs),
{
    match payload {
        Some(p) => session_is_current(p.exp, now_secs),
        None => false,
    }
}

/// A session is current while its expiry lies after now.
pub fn session_is_current(exp: u64, now_secs: u64) -> (current: bool)
    ensures
        current == (exp > now_secs),
{
    exp > now_secs
}

pub open spec fn spec_jwt_payload_segment(token: Seq<char>) -> Result<Seq<u8>, Seq<char>> {
    let parts = spec_split(token, '.');
    if parts.len() < 2 {
        Err("invalid JWT format"@)
    } else {
        match spec_base64_url_decode(parts[1]) {
            Ok(b) => Ok(b),
            Err(m) => Err("failed to decode JWT payload: "@ + m),
        }
    }
}

/// The decoded payload (second `.`-separated part) of a JWT.
pub fn jwt_payload_segment(token: &str) -> (out: Result<Vec<u8>, String>)
    ensures
        match out {
            Ok(b) => spec_jwt_payload_segment(token@) == Ok::<Seq<u8>, Seq<char>>(b@),
            Err(m) => spec_jwt_payload_segment(token@) == Err::<Seq<u8>, Seq<char>>(m@),
        },
{
    let parts = split_on(token, '.');
    proof {
        assert(parts@.map_values(|l: Vec<char>| l@).len() == parts@.len());
    }
    if parts.len() < 2 {
        return Err(copy_str("invalid JWT format"));
    }
    assert(parts@.map_values(|l: Vec<char>| l@)[1] == parts@[1]@);
    let segment = string_from_chars(parts[1].as_slice());
    match base64_url_decode(segment.as_str()) {
        Ok(b) => Ok(b),
        Err(m) => {
            let mut message = copy_str("failed to decode JWT payload: ");
            push_str_chars(&mut message, m.as_str());
            Err(message)
        },
    }
}

/// The session expiry taken from an access token: its `exp` claim, else an
/// hour from now (0 when the clock is unavailable).
pub fn exp_or_default(exp: Option<u64>, now_secs: Option<u64>) -> (out: u64)
    requires
        now_secs is Some ==> now_secs->0 <= u64::MAX - 3600,
    ensures
        out == match exp {
            Some(e) => e,
            None => match now_secs {
                Some(n) => (n + 3600) as u64,
                None => 0,
            },
        },
{
    match exp {
        Some(e) => e,
        None => match now_secs {
            Some(n) => n + 3600,
            None => 0,
        },
    }
}

} // verus!
