//! Client IP allow and deny lists of a security policy.
use crate::response::HttpResponse;
use crate::text::{chars_range, copy_str, decimal, last_index, last_index_of, push_decimal, str_chars, string_from_chars};
use vstd::prelude::*;

verus! {

/// A client address as a number: 32 bits for IPv4, 128 for IPv6.
#[derive(Debug, Clone, Copy, PartialEq, Eq)]
pub struct IpValue {
    pub v6: bool,
    pub bits: u128,
}

/// The address range of a CIDR block, as ipnet computes it.
#[derive(Debug, Clone, Copy, PartialEq, Eq)]
pub struct CidrRange {
    pub v6: bool,
    pub network: u128,
    pub broadcast: u128,
}

/// The range a CIDR text denotes, or `None` when ipnet refuses the text.
pub uninterp spec fn spec_parse_cidr(text: Seq<char>) -> Option<CidrRange>;

/// `text.parse::<ipnet::IpNet>()`, kept as its network and broadcast
/// addresses.
#[verifier::external_body]
fn parse_cidr(text: &str) -> (range: Option<CidrRange>)
    ensures
        range == spec_parse_cidr(text@),
{
    match text.parse::<ipnet::IpNet>() {
        Ok(ipnet::IpNet::V4(n)) => {
            let (network, broadcast) = (u32::from(n.network()), u32::from(n.broadcast()));
            Some(CidrRange { v6: false, network: network as u128, broadcast: broadcast as u128 })
        },
        Ok(ipnet::IpNet::V6(n)) => {
            let (network, broadcast) = (u128::from(n.network()), u128::from(n.broadcast()));
            Some(CidrRange { v6: true, network, broadcast })
        },
        Err(_) => None,
    }
}

/// ipnet's containment: same family, and between network and broadcast.
pub open spec fn spec_cidr_contains(range: CidrRange, ip: IpValue) -> bool {
    range.v6 == ip.v6 && range.network <= ip.bits && ip.bits <= range.broadcast
}

pub fn cidr_contains(range: &CidrRange, ip: &IpValue) -> (inside: bool)
    ensures
        inside == spec_cidr_contains(*range, *ip),
{
    range.v6 == ip.v6 && range.network <= ip.bits && ip.bits <= range.broadcast
}

/// Some entry of `cidrs` parses to a range holding `ip`; entries that do not
/// parse are skipped.
pub open spec fn spec_listed(cidrs: Seq<String>, ip: IpValue) -> bool {
    exists|k: int|
        0 <= k < cidrs.len() && match #[trigger] spec_parse_cidr(cidrs[k]@) {
            Some(r) => spec_cidr_contains(r, ip),
            None => false,
        }
}

pub fn listed(cidrs: &[String], ip: &IpValue) -> (found: bool)
    ensures
        found == spec_listed(cidrs@, *ip),
{
    let mut k: usize = 0;
    while k < cidrs.len()
        invariant
            k <= cidrs@.len(),
            forall|j: int|
                0 <= j < k ==> match #[trigger] spec_parse_cidr(cidrs@[j]@) {
                    Some(r) => !spec_cidr_contains(r, *ip),
                    None => true,
                },
        decreases cidrs@.len() - k,
    {
        if let Some(range) = parse_cidr(cidrs[k].as_str()) {
            if cidr_contains(&range, ip) {
                return true;
            }
        }
        k = k + 1;
    }
    false
}

/// An entry at any position of a list, when it parses to a range holding
/// `ip`, lists `ip`.
pub proof fn lemma_entry_at_any_position_lists(cidrs: Seq<String>, ip: IpValue, k: int, r: CidrRange)
    requires
        0 <= k < cidrs.len(),
        spec_parse_cidr(cidrs[k]@) == Some(r),
        spec_cidr_contains(r, ip),
    ensures
        spec_listed(cidrs, ip),
{
    assert(match spec_parse_cidr(cidrs[k]@) {
        Some(r) => spec_cidr_contains(r, ip),
        None => false,
    });
}

/// An address is listed only through an entry that parses to a range of
/// its family holding it.
pub proof fn lemma_listed_has_witness_entry(cidrs: Seq<String>, ip: IpValue)
    requires
        spec_listed(cidrs, ip),
    ensures
        exists|k: int|
            0 <= k < cidrs.len() && (#[trigger] spec_parse_cidr(cidrs[k]@)) is Some
                && spec_parse_cidr(cidrs[k]@).unwrap().v6 == ip.v6 && spec_cidr_contains(
                spec_parse_cidr(cidrs[k]@).unwrap(),
                ip,
            ),
{
}

/// Appending an entry to a list lists exactly what the list listed and what
/// the new entry holds: no entry of a list is ignored for its position.
pub proof fn lemma_listed_after_push(cidrs: Seq<String>, entry: String, ip: IpValue)
    ensures
        spec_listed(cidrs.push(entry), ip) == (spec_listed(cidrs, ip) || match spec_parse_cidr(
            entry@,
        ) {
            Some(r) => spec_cidr_contains(r, ip),
            None => false,
        }),
{
    let longer = cidrs.push(entry);
    if spec_listed(cidrs, ip) {
        let k = choose|k: int|
            0 <= k < cidrs.len() && match #[trigger] spec_parse_cidr(cidrs[k]@) {
                Some(r) => spec_cidr_contains(r, ip),
                None => false,
            };
        assert(longer[k] == cidrs[k]);
        assert(match spec_parse_cidr(longer[k]@) {
            Some(r) => spec_cidr_contains(r, ip),
            None => false,
        });
    }
    if match spec_parse_cidr(entry@) {
        Some(r) => spec_cidr_contains(r, ip),
        None => false,
    } {
        assert(longer[cidrs.len() as int] == entry);
        assert(match spec_parse_cidr(longer[cidrs.len() as int]@) {
            Some(r) => spec_cidr_contains(r, ip),
            None => false,
        });
    }
    if spec_listed(longer, ip) {
        let k = choose|k: int|
            0 <= k < longer.len() && match #[trigger] spec_parse_cidr(longer[k]@) {
                Some(r) => spec_cidr_contains(r, ip),
                None => false,
            };
        if k < cidrs.len() {
            assert(longer[k] == cidrs[k]);
            assert(match spec_parse_cidr(cidrs[k]@) {
                Some(r) => spec_cidr_contains(r, ip),
                None => false,
            });
        } else {
            assert(longer[k] == entry);
        }
    }
}

/// The IP allow and deny lists of a security policy.
#[derive(Debug, Clone, Default)]
pub struct IpFilterConfig {
    pub allow_cidrs: Vec<String>,
    pub deny_cidrs: Vec<String>,
}

pub open spec fn spec_ip_filter_allows(config: IpFilterConfig, client: Option<IpValue>) -> bool {
    if config.allow_cidrs@.len() == 0 && config.deny_cidrs@.len() == 0 {
        true
    } else {
        match client {
            None => false,
            Some(ip) => spec_listed(config.allow_cidrs@, ip) || (config.allow_cidrs@.len() == 0
                && !spec_listed(config.deny_cidrs@, ip)),
        }
    }
}

/// Whether a client may pass: with no lists everyone passes; otherwise an
/// unknown address is refused. The allow list takes precedence over the deny
/// list: an address it holds passes; when it is not empty, no other address
/// does; when it is empty, the deny list refuses the addresses it holds.
pub fn ip_filter_allows(config: &IpFilterConfig, client: Option<IpValue>) -> (allowed: bool)
    ensures
        allowed == spec_ip_filter_allows(*config, client),
{
    if config.allow_cidrs.len() == 0 && config.deny_cidrs.len() == 0 {
        return true;
    }
    let ip = match client {
        Some(ip) => ip,
        None => return false,
    };
    if listed(config.allow_cidrs.as_slice(), &ip) {
        return true;
    }
    if config.allow_cidrs.len() > 0 {
        return false;
    }
    !listed(config.deny_cidrs.as_slice(), &ip)
}

/// With an empty allow list, a client held by any entry of the deny list,
/// at any position, is refused.
pub proof fn lemma_deny_entry_refuses(config: IpFilterConfig, ip: IpValue, k: int, r: CidrRange)
    requires
        config.allow_cidrs@.len() == 0,
        0 <= k < config.deny_cidrs@.len(),
        spec_parse_cidr(config.deny_cidrs@[k]@) == Some(r),
        spec_cidr_contains(r, ip),
    ensures
        !spec_ip_filter_allows(config, Some(ip)),
{
    lemma_entry_at_any_position_lists(config.deny_cidrs@, ip, k, r);
}

/// A client held by any entry of the allow list, at any position, passes,
/// whatever the deny list holds.
pub proof fn lemma_allow_entry_admits(config: IpFilterConfig, ip: IpValue, k: int, r: CidrRange)
    requires
        0 <= k < config.allow_cidrs@.len(),
        spec_parse_cidr(config.allow_cidrs@[k]@) == Some(r),
        spec_cidr_contains(r, ip),
    ensures
        spec_ip_filter_allows(config, Some(ip)),
{
    lemma_entry_at_any_position_lists(config.allow_cidrs@, ip, k, r);
}

/// With an empty allow list and a nonempty deny list, a client passes
/// exactly when no entry of the deny list parses to a range holding it.
pub proof fn lemma_deny_only_policy(config: IpFilterConfig, ip: IpValue)
    requires
        config.allow_cidrs@.len() == 0,
        config.deny_cidrs@.len() > 0,
    ensures
        spec_ip_filter_allows(config, Some(ip)) == (forall|k: int|
            0 <= k < config.deny_cidrs@.len() ==> match #[trigger] spec_parse_cidr(
                config.deny_cidrs@[k]@,
            ) {
                Some(r) => !spec_cidr_contains(r, ip),
                None => true,
            }),
{
}

/// The address part of `address:port`: everything before the last colon,
/// or the whole text when it has none.
pub fn client_ip_text(address: &str) -> (ip: String)
    ensures
        ip@ == match last_index_of(address@, ':') {
            Some(i) => address@.subrange(0, i),
            None => address@,
        },
{
    let chars = str_chars(address);
    match last_index(chars.as_slice(), ':') {
        Some(i) => {
            let head = chars_range(chars.as_slice(), 0, i);
            string_from_chars(head.as_slice())
        },
        None => string_from_chars(chars.as_slice()),
    }
}

/// A 403 with a plain-text message: the head and the body.
pub fn forbidden_response(message: &str) -> (out: (HttpResponse, String))
    ensures
        out.0.status == 403,
        out.0.headers@ == seq![
            ("content-type"@, "text/plain"@),
            ("content-length"@, decimal((vstd::utf8::encode_utf8(message@).len() as usize) as nat)),
        ],
        out.1@ == message@,
{
    let mut headers = crate::headers::HeaderList::new();
    headers.append("content-type", "text/plain");
    let mut len = String::new();
    push_decimal(&mut len, message.len() as u64);
    headers.append("content-length", len.as_str());
    (HttpResponse { status: 403, headers }, copy_str(message))
}

} // verus!
