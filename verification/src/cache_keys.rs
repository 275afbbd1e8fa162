//! Keys of the caches of parsed TLS material: a backend TLS policy and a
//! client certificate are known by digests of what they hold.
use crate::ir::{BackendSubjectAltName, BackendTlsValidation};
use crate::oidc::{sha256, spec_sha256};
use crate::text::copy_str;
use vstd::prelude::*;

verus! {

/// The `count` little-endian bytes of `n`.
pub open spec fn spec_le_bytes(n: nat, count: nat) -> Seq<u8>
    decreases count,
{
    if count == 0 {
        Seq::empty()
    } else {
        seq![(n % 256) as u8] + spec_le_bytes(n / 256, (count - 1) as nat)
    }
}

proof fn lemma_le_bytes_len(n: nat, count: nat)
    ensures
        spec_le_bytes(n, count).len() == count,
    decreases count,
{
    if count > 0 {
        lemma_le_bytes_len(n / 256, (count - 1) as nat);
    }
}

/// `u64::to_le_bytes`.
pub fn le_bytes_u64(n: u64) -> (out: Vec<u8>)
    ensures
        out@ == spec_le_bytes(n as nat, 8),
{
    let mut out: Vec<u8> = Vec::new();
    let mut rest: u64 = n;
    let mut i: usize = 0;
    while i < 8
        invariant
            i <= 8,
            out@ + spec_le_bytes(rest as nat, (8 - i) as nat) == spec_le_bytes(n as nat, 8),
        decreases 8 - i,
    {
        let ghost before = out@;
        out.push((rest % 256) as u8);
        assert(spec_le_bytes(rest as nat, (8 - i) as nat) == seq![(rest % 256) as u8]
            + spec_le_bytes((rest / 256) as nat, (8 - i - 1) as nat));
        assert(out@ + spec_le_bytes((rest / 256) as nat, (8 - i - 1) as nat) =~= before + (seq![
            (rest % 256) as u8,
        ] + spec_le_bytes((rest / 256) as nat, (8 - i - 1) as nat)));
        rest = rest / 256;
        i = i + 1;
    }
    assert(out@ + Seq::<u8>::empty() =~= out@);
    out
}

/// One framed text: its UTF-8 length as eight little-endian bytes, then its
/// UTF-8 bytes.
pub open spec fn spec_frame(text: Seq<char>) -> Seq<u8> {
    spec_le_bytes(vstd::utf8::encode_utf8(text).len(), 8) + vstd::utf8::encode_utf8(text)
}

/// The frames of several texts, in order.
pub open spec fn spec_frames(texts: Seq<Seq<char>>) -> Seq<u8>
    decreases texts.len(),
{
    if texts.len() == 0 {
        Seq::empty()
    } else {
        spec_frames(texts.drop_last()) + spec_frame(texts.last())
    }
}

fn push_frame(out: &mut Vec<u8>, text: &str)
    ensures
        final(out)@ == old(out)@ + spec_frame(text@),
{
    let bytes = text.as_bytes();
    let len = le_bytes_u64(bytes.len() as u64);
    proof {
        lemma_le_bytes_len(bytes@.len(), 8);
    }
    let ghost start = out@;
    let mut i: usize = 0;
    while i < 8
        invariant
            i <= 8,
            len@.len() == 8,
            out@ == start + len@.take(i as int),
        decreases 8 - i,
    {
        out.push(len[i]);
        i = i + 1;
        assert(out@ =~= start + len@.take(i as int));
    }
    assert(len@.take(8) =~= len@);
    let ghost mid = out@;
    let mut j: usize = 0;
    while j < bytes.len()
        invariant
            j <= bytes@.len(),
            out@ == mid + bytes@.take(j as int),
        decreases bytes@.len() - j,
    {
        out.push(bytes[j]);
        j = j + 1;
        assert(out@ =~= mid + bytes@.take(j as int));
    }
    assert(bytes@.take(bytes@.len() as int) =~= bytes@);
    assert(out@ =~= old(out)@ + spec_frame(text@));
}

/// The bytes a CA bundle is digested from: each PEM framed by its length.
pub fn ca_bundle_frames(ca_pems: &[String]) -> (out: Vec<u8>)
    ensures
        out@ == spec_frames(ca_pems@.map_values(|s: String| s@)),
{
    let ghost texts = ca_pems@.map_values(|s: String| s@);
    let mut out: Vec<u8> = Vec::new();
    let mut i: usize = 0;
    while i < ca_pems.len()
        invariant
            i <= ca_pems@.len(),
            texts == ca_pems@.map_values(|s: String| s@),
            out@ == spec_frames(texts.take(i as int)),
        decreases ca_pems@.len() - i,
    {
        assert(texts.take(i + 1).drop_last() =~= texts.take(i as int));
        assert(texts.take(i + 1).last() == ca_pems@[i as int]@);
        push_frame(&mut out, ca_pems[i].as_str());
        i = i + 1;
    }
    assert(texts.take(ca_pems@.len() as int) =~= texts);
    out
}

/// Each subject alternative name's kind and value, in order.
pub open spec fn spec_san_texts(items: Seq<BackendSubjectAltName>) -> Seq<Seq<char>>
    decreases items.len(),
{
    if items.len() == 0 {
        Seq::empty()
    } else {
        spec_san_texts(items.drop_last()) + seq![items.last().kind@, items.last().value@]
    }
}

proof fn lemma_frames_append(a: Seq<Seq<char>>, b: Seq<Seq<char>>)
    ensures
        spec_frames(a + b) == spec_frames(a) + spec_frames(b),
    decreases b.len(),
{
    if b.len() == 0 {
        assert(a + b =~= a);
        assert(spec_frames(a) + Seq::<u8>::empty() =~= spec_frames(a));
    } else {
        lemma_frames_append(a, b.drop_last());
        assert((a + b).drop_last() =~= a + b.drop_last());
        assert((a + b).last() == b.last());
        assert(spec_frames(a) + spec_frames(b.drop_last()) + spec_frame(b.last()) =~= spec_frames(a)
            + (spec_frames(b.drop_last()) + spec_frame(b.last())));
    }
}

/// The bytes the subject alternative names are digested from.
pub fn subject_alt_name_frames(items: &[BackendSubjectAltName]) -> (out: Vec<u8>)
    ensures
        out@ == spec_frames(spec_san_texts(items@)),
{
    let mut out: Vec<u8> = Vec::new();
    let mut i: usize = 0;
    while i < items.len()
        invariant
            i <= items@.len(),
            out@ == spec_frames(spec_san_texts(items@.take(i as int))),
        decreases items@.len() - i,
    {
        assert(items@.take(i + 1).drop_last() =~= items@.take(i as int));
        assert(items@.take(i + 1).last() == items@[i as int]);
        let ghost before = spec_san_texts(items@.take(i as int));
        let ghost pair = seq![items@[i as int].kind@, items@[i as int].value@];
        push_frame(&mut out, items[i].kind.as_str());
        push_frame(&mut out, items[i].value.as_str());
        proof {
            lemma_frames_append(before, pair);
            assert(pair.drop_last() =~= seq![items@[i as int].kind@]);
            assert(seq![items@[i as int].kind@].drop_last() =~= Seq::<Seq<char>>::empty());
            let one = seq![items@[i as int].kind@];
            assert(one.last() == items@[i as int].kind@);
            assert(one.drop_last() =~= Seq::<Seq<char>>::empty());
            assert(spec_frames(Seq::<Seq<char>>::empty()) == Seq::<u8>::empty());
            assert(spec_frames(one) == spec_frames(one.drop_last()) + spec_frame(one.last()));
            assert(Seq::<u8>::empty() + spec_frame(items@[i as int].kind@) =~= spec_frame(
                items@[i as int].kind@,
            ));
            assert(pair.last() == items@[i as int].value@);
            assert(spec_frames(pair) == spec_frames(pair.drop_last()) + spec_frame(pair.last()));
        }
        i = i + 1;
    }
    assert(items@.take(items@.len() as int) =~= items@);
    out
}

/// What identifies a parsed backend TLS policy in the cache.
#[derive(Debug, Clone, PartialEq, Eq)]
pub struct BackendTlsValidationCacheKey {
    pub hostname: String,
    pub use_system_ca_certificates: bool,
    pub ca_bundle_sha256: Vec<u8>,
    pub subject_alt_names_sha256: Vec<u8>,
    pub min_version: String,
    pub max_version: String,
}

impl BackendTlsValidationCacheKey {
    /// The key of a policy: its texts and flags, with the CA bundle and the
    /// subject alternative names kept as SHA-256 digests of their frames.
    pub fn new(validation: &BackendTlsValidation) -> (key: Self)
        ensures
            key.hostname@ == validation.hostname@,
            key.use_system_ca_certificates == validation.use_system_ca_certificates,
            key.ca_bundle_sha256@ == spec_sha256(
                spec_frames(validation.ca_pems@.map_values(|s: String| s@)),
            ),
            key.subject_alt_names_sha256@ == spec_sha256(
                spec_frames(spec_san_texts(validation.subject_alt_names@)),
            ),
            key.min_version@ == validation.min_version@,
            key.max_version@ == validation.max_version@,
    {
        let ca = ca_bundle_frames(validation.ca_pems.as_slice());
        let sans = subject_alt_name_frames(validation.subject_alt_names.as_slice());
        BackendTlsValidationCacheKey {
            hostname: copy_str(validation.hostname.as_str()),
            use_system_ca_certificates: validation.use_system_ca_certificates,
            ca_bundle_sha256: sha256(ca.as_slice()),
            subject_alt_names_sha256: sha256(sans.as_slice()),
            min_version: copy_str(validation.min_version.as_str()),
            max_version: copy_str(validation.max_version.as_str()),
        }
    }
}

/// What identifies a parsed client certificate in the cache.
#[derive(Debug, Clone, PartialEq, Eq)]
pub struct ClientCertCacheKey {
    pub namespace: String,
    pub name: String,
    pub cert_pem_sha256: Vec<u8>,
    pub key_pem_sha256: Vec<u8>,
}

impl ClientCertCacheKey {
    pub fn new(namespace: &str, name: &str, cert_pem: &str, key_pem: &str) -> (key: Self)
        ensures
            key.namespace@ == namespace@,
            key.name@ == name@,
            key.cert_pem_sha256@ == spec_sha256(vstd::utf8::encode_utf8(cert_pem@)),
            key.key_pem_sha256@ == spec_sha256(vstd::utf8::encode_utf8(key_pem@)),
    {
        ClientCertCacheKey {
            namespace: copy_str(namespace),
            name: copy_str(name),
            cert_pem_sha256: sha256(cert_pem.as_bytes()),
            key_pem_sha256: sha256(key_pem.as_bytes()),
        }
    }
}

/// A TLS peer group key is never zero: zero is replaced by one.
pub fn nonzero_group_key(hash: u64) -> (key: u64)
    ensures
        key == (if hash == 0 {
            1
        } else {
            hash
        }),
{
    if hash == 0 {
        1
    } else {
        hash
    }
}

} // verus!
