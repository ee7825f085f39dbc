//! The byte-level encodings a PKCS#11 token needs around its raw signing
//! operation, and the choice of algorithms from a key's attributes.
use vstd::prelude::*;

verus! {

/// Why a signing operation with a token could not be completed.
#[derive(Clone, Debug, PartialEq, Eq)]
pub enum CryptoError {
    SigningFailed(String),
    UnsupportedKeyType(String),
}

/// Digest algorithms a signature can use.
#[derive(Clone, Copy, Debug, PartialEq, Eq, Structural)]
pub enum DigestAlgorithm {
    Sha256,
    Sha384,
    Sha512,
}

/// Signature algorithms a token key can perform.
#[derive(Clone, Copy, Debug, PartialEq, Eq, Structural)]
pub enum SignatureAlgorithm {
    RsaPkcs1v15,
    EcdsaP256,
    EcdsaP384,
}

/// The PKCS#11 key type of a private key, as far as signing cares.
#[derive(Clone, Copy, Debug, PartialEq, Eq, Structural)]
pub enum KeyKind {
    Rsa,
    Ec,
    Other,
}

// ---------------------------------------------------------------- ECDSA

/// The number of zero bytes `v` starts with.
pub open spec fn leading_zero_bytes(v: Seq<u8>) -> nat
    decreases v.len(),
{
    if v.len() == 0 {
        0
    } else if v[0] == 0 {
        1 + leading_zero_bytes(v.drop_first())
    } else {
        0
    }
}

/// Where the significant bytes of a big-endian number start: the first
/// non-zero byte, or the last byte when all of them are zero.
pub open spec fn significant_start(v: Seq<u8>) -> int {
    if leading_zero_bytes(v) == v.len() {
        v.len() - 1
    } else {
        leading_zero_bytes(v) as int
    }
}

/// A DER INTEGER holding the non-negative big-endian number `v`: tag 0x02,
/// a one-byte length, a zero byte when the top bit would otherwise make it
/// negative, then the significant bytes. The length byte is taken modulo
/// 256, as the token's output is never long enough to need more.
pub open spec fn der_unsigned_integer(v: Seq<u8>) -> Seq<u8> {
    let body = v.subrange(significant_start(v), v.len() as int);
    let pad: int = if body[0] >= 0x80 { 1 } else { 0 };
    seq![0x02u8, ((body.len() + pad) % 256) as u8] + (if pad == 1 {
        seq![0u8]
    } else {
        Seq::<u8>::empty()
    }) + body
}

/// The DER `Ecdsa-Sig-Value` SEQUENCE for a raw `r || s` signature whose
/// two halves have equal length.
pub open spec fn ecdsa_der(raw: Seq<u8>) -> Seq<u8> {
    let half = raw.len() / 2;
    let r = der_unsigned_integer(raw.subrange(0, half as int));
    let s = der_unsigned_integer(raw.subrange(half as int, raw.len() as int));
    seq![0x30u8, ((r.len() + s.len()) % 256) as u8] + r + s
}

proof fn lemma_leading_zeros_bounded(v: Seq<u8>)
    ensures
        leading_zero_bytes(v) <= v.len(),
        forall|i: int| 0 <= i < leading_zero_bytes(v) ==> v[i] == 0,
        leading_zero_bytes(v) < v.len() ==> v[leading_zero_bytes(v) as int] != 0,
    decreases v.len(),
{
    if v.len() > 0 && v[0] == 0 {
        lemma_leading_zeros_bounded(v.drop_first());
        assert forall|i: int| 0 <= i < leading_zero_bytes(v) implies v[i] == 0 by {
            if i > 0 {
                assert(v[i] == v.drop_first()[i - 1]);
            }
        }
    }
}

proof fn lemma_leading_zeros_of_prefix(v: Seq<u8>, k: int)
    requires
        0 <= k <= v.len(),
        forall|i: int| 0 <= i < k ==> v[i] == 0,
        k == v.len() || v[k] != 0,
    ensures
        leading_zero_bytes(v) == k,
    decreases v.len(),
{
    if k > 0 {
        assert forall|i: int| 0 <= i < k - 1 implies v.drop_first()[i] == 0 by {
            assert(v.drop_first()[i] == v[i + 1]);
        }
        if k - 1 < v.drop_first().len() {
            assert(v.drop_first()[k - 1] == v[k]);
        }
        lemma_leading_zeros_of_prefix(v.drop_first(), k - 1);
    }
}

/// The DER INTEGER for the big-endian number in `v[start..end)`.
fn der_integer(raw: &[u8], start: usize, end: usize) -> (r: Vec<u8>)
    requires
        start < end <= raw@.len(),
    ensures
        r@ == der_unsigned_integer(raw@.subrange(start as int, end as int)),
        r@.len() <= end - start + 3,
{
    let ghost v = raw@.subrange(start as int, end as int);
    let mut first: usize = start;
    while first < end && raw[first] == 0
        invariant
            start <= first <= end,
            end <= raw@.len(),
            v == raw@.subrange(start as int, end as int),
            forall|i: int| 0 <= i < first - start ==> v[i] == 0,
        decreases end - first,
    {
        first = first + 1;
    }
    proof {
        if first < end {
            assert(v[first - start] == raw@[first as int]);
        }
        lemma_leading_zeros_of_prefix(v, first - start);
    }
    if first == end {
        first = end - 1;
    }
    let pad: bool = raw[first] >= 0x80;
    let count: usize = end - first;
    let pad_len: usize = if pad { 1 } else { 0 };
    let length_byte: usize = (count % 256 + pad_len) % 256;
    proof {
        vstd::arithmetic::div_mod::lemma_add_mod_noop(count as int, pad_len as int, 256);
        assert(pad_len % 256 == pad_len);
    }
    let mut r: Vec<u8> = Vec::new();
    r.push(0x02u8);
    r.push(length_byte as u8);
    if pad {
        r.push(0u8);
    }
    let ghost header = r@;
    let mut i: usize = first;
    while i < end
        invariant
            first <= i <= end,
            end <= raw@.len(),
            r@ == header + raw@.subrange(first as int, i as int),
        decreases end - i,
    {
        r.push(raw[i]);
        i = i + 1;
        assert(r@ =~= header + raw@.subrange(first as int, i as int));
    }
    proof {
        let body = v.subrange(significant_start(v), v.len() as int);
        assert(significant_start(v) == first - start);
        assert(body =~= raw@.subrange(first as int, end as int));
        assert(body[0] == raw@[first as int]);
        assert(r@ =~= der_unsigned_integer(v));
    }
    r
}

/// Converts the fixed-width `r || s` signature a token returns into the
/// DER encoding CMS expects; fails on an empty or odd-length input.
pub fn ecdsa_raw_to_der(raw: &[u8]) -> (r: Result<Vec<u8>, CryptoError>)
    ensures
        match r {
            Ok(der) => raw@.len() > 0 && raw@.len() % 2 == 0 && der@ == ecdsa_der(raw@),
            Err(e) => (raw@.len() == 0 || raw@.len() % 2 == 1) && (e matches CryptoError::SigningFailed(
                m,
            ) && m@ == "firma ECDSA inválida del token"@),
        },
{
    if raw.len() == 0 || raw.len() % 2 != 0 {
        return Err(CryptoError::SigningFailed(String::from_str("firma ECDSA inválida del token")));
    }
    let half: usize = raw.len() / 2;
    let r_part = der_integer(raw, 0, half);
    let s_part = der_integer(raw, half, raw.len());
    let mut result: Vec<u8> = Vec::new();
    result.push(0x30u8);
    let length_byte: usize = (r_part.len() % 256 + s_part.len() % 256) % 256;
    proof {
        vstd::arithmetic::div_mod::lemma_add_mod_noop(r_part.len() as int, s_part.len() as int, 256);
    }
    result.push(length_byte as u8);
    let mut r_tail = r_part.clone();
    let mut s_tail = s_part.clone();
    assert(r_tail@ =~= r_part@);
    assert(s_tail@ =~= s_part@);
    result.append(&mut r_tail);
    result.append(&mut s_tail);
    assert(result@ =~= ecdsa_der(raw@));
    Ok(result)
}

/// Reading a big-endian byte string as a number.
pub open spec fn be_value(s: Seq<u8>) -> nat
    decreases s.len(),
{
    if s.len() == 0 {
        0
    } else {
        be_value(s.drop_last()) * 256 + (s.last() as nat)
    }
}

proof fn lemma_zero_prefix_keeps_value(s: Seq<u8>)
    ensures
        be_value(seq![0u8] + s) == be_value(s),
    decreases s.len(),
{
    let t = seq![0u8] + s;
    if s.len() > 0 {
        assert(t.drop_last() =~= seq![0u8] + s.drop_last());
        assert(t.last() == s.last());
        lemma_zero_prefix_keeps_value(s.drop_last());
        assert(be_value(t) == be_value(t.drop_last()) * 256 + (t.last() as nat));
        assert(be_value(s) == be_value(s.drop_last()) * 256 + (s.last() as nat));
    } else {
        assert(t.drop_last() =~= Seq::<u8>::empty());
        assert(be_value(Seq::<u8>::empty()) == 0);
        assert(be_value(t) == be_value(t.drop_last()) * 256 + (t.last() as nat));
        assert(be_value(s) == 0);
    }
}

proof fn lemma_zeros_keep_value(v: Seq<u8>, k: int)
    requires
        0 <= k <= v.len(),
        forall|i: int| 0 <= i < k ==> v[i] == 0,
    ensures
        be_value(v) == be_value(v.subrange(k, v.len() as int)),
    decreases k,
{
    if k > 0 {
        let rest = v.subrange(1, v.len() as int);
        assert(v[0] == 0);
        assert(v =~= seq![0u8] + rest);
        lemma_zero_prefix_keeps_value(rest);
        assert(be_value(v) == be_value(rest));
        assert forall|i: int| 0 <= i < k - 1 implies rest[i] == 0 by {
            assert(rest[i] == v[i + 1]);
        }
        lemma_zeros_keep_value(rest, k - 1);
        assert(rest.subrange(k - 1, rest.len() as int) =~= v.subrange(k, v.len() as int));
    } else {
        assert(v.subrange(0, v.len() as int) =~= v);
    }
}

/// A DER INTEGER made from up to 120 raw bytes is well formed and holds the
/// same number: tag 0x02, a short-form length equal to the content length,
/// content that reads as a non-negative number equal to the raw bytes, and
/// no redundant leading zero byte.
pub proof fn law_der_integer_encodes_the_same_number(v: Seq<u8>)
    requires
        0 < v.len() <= 120,
    ensures
        der_unsigned_integer(v)[0] == 0x02,
        der_unsigned_integer(v)[1] == der_unsigned_integer(v).len() - 2,
        der_unsigned_integer(v).len() - 2 < 128,
        der_unsigned_integer(v).len() >= 3,
        der_unsigned_integer(v).len() <= v.len() + 3,
        der_unsigned_integer(v)[2] < 0x80,
        be_value(der_unsigned_integer(v).subrange(2, der_unsigned_integer(v).len() as int))
            == be_value(v),
        der_unsigned_integer(v).len() > 3 ==> !(der_unsigned_integer(v)[2] == 0
            && der_unsigned_integer(v)[3] < 0x80),
{
    let d = der_unsigned_integer(v);
    let start = significant_start(v);
    lemma_leading_zeros_bounded(v);
    let body = v.subrange(start, v.len() as int);
    let pad: int = if body[0] >= 0x80 { 1 } else { 0 };
    assert(0 <= start < v.len());
    assert forall|i: int| 0 <= i < start implies v[i] == 0 by {}
    lemma_zeros_keep_value(v, start);
    let content = d.subrange(2, d.len() as int);
    if pad == 1 {
        assert(content =~= seq![0u8] + body);
        lemma_zero_prefix_keeps_value(body);
    } else {
        assert(content =~= body);
    }
    if d.len() > 3 && pad == 0 {
        // the first content byte is the first significant byte, non-zero
        // unless the number is zero and has a single byte.
        assert(d[2] == body[0]);
        if leading_zero_bytes(v) == v.len() {
            assert(body.len() == 1);
        }
    }
}

/// The DER signature of up to 120 raw bytes is well formed: a SEQUENCE
/// whose short-form length equals its content length, holding the two
/// INTEGERs for the halves `r` and `s`.
pub proof fn law_ecdsa_der_is_well_formed(raw: Seq<u8>)
    requires
        0 < raw.len() <= 120,
        raw.len() % 2 == 0,
    ensures
        ecdsa_der(raw)[0] == 0x30,
        ecdsa_der(raw)[1] == ecdsa_der(raw).len() - 2,
        ecdsa_der(raw).len() - 2 < 128,
        ecdsa_der(raw).subrange(2, ecdsa_der(raw).len() as int) == der_unsigned_integer(
            raw.subrange(0, (raw.len() / 2) as int),
        ) + der_unsigned_integer(raw.subrange((raw.len() / 2) as int, raw.len() as int)),
{
    let half = raw.len() / 2;
    law_der_integer_encodes_the_same_number(raw.subrange(0, half as int));
    law_der_integer_encodes_the_same_number(raw.subrange(half as int, raw.len() as int));
    let r = der_unsigned_integer(raw.subrange(0, half as int));
    let s = der_unsigned_integer(raw.subrange(half as int, raw.len() as int));
    assert(r.len() + s.len() < 128);
    assert((r.len() + s.len()) % 256 == r.len() + s.len());
    let d = ecdsa_der(raw);
    assert(d.len() == 2 + r.len() + s.len());
    assert(d.subrange(2, d.len() as int) =~= der_unsigned_integer(raw.subrange(0, half as int))
        + der_unsigned_integer(raw.subrange(half as int, raw.len() as int)));
}

// ------------------------------------------------------------------ RSA

/// The DER `DigestInfo` header for SHA-256 (RFC 8017, section 9.2).
pub open spec fn sha256_digest_info_prefix() -> Seq<u8> {
    seq![
        0x30u8, 0x31, 0x30, 0x0d, 0x06, 0x09, 0x60, 0x86, 0x48, 0x01, 0x65, 0x03, 0x04, 0x02, 0x01,
        0x05, 0x00, 0x04, 0x20,
    ]
}

/// The DER `DigestInfo` header for SHA-384 (RFC 8017, section 9.2).
pub open spec fn sha384_digest_info_prefix() -> Seq<u8> {
    seq![
        0x30u8, 0x41, 0x30, 0x0d, 0x06, 0x09, 0x60, 0x86, 0x48, 0x01, 0x65, 0x03, 0x04, 0x02, 0x02,
        0x05, 0x00, 0x04, 0x30,
    ]
}

/// The bytes a token signs with raw RSA PKCS#1 v1.5: the `DigestInfo` of
/// `hash`. Only SHA-256 and SHA-384 are offered to tokens.
pub fn rsa_digest_info(digest: DigestAlgorithm, hash: &[u8]) -> (r: Result<Vec<u8>, CryptoError>)
    ensures
        match r {
            Ok(info) => match digest {
                DigestAlgorithm::Sha256 => info@ == sha256_digest_info_prefix() + hash@,
                DigestAlgorithm::Sha384 => info@ == sha384_digest_info_prefix() + hash@,
                DigestAlgorithm::Sha512 => false,
            },
            Err(e) => digest == DigestAlgorithm::Sha512 && (e matches CryptoError::UnsupportedKeyType(
                m,
            ) && m@ == "hash RSA no compatible"@),
        },
{
    let mut info: Vec<u8> = match digest {
        DigestAlgorithm::Sha256 => vec![
            0x30u8, 0x31, 0x30, 0x0d, 0x06, 0x09, 0x60, 0x86, 0x48, 0x01, 0x65, 0x03, 0x04, 0x02,
            0x01, 0x05, 0x00, 0x04, 0x20,
        ],
        DigestAlgorithm::Sha384 => vec![
            0x30u8, 0x41, 0x30, 0x0d, 0x06, 0x09, 0x60, 0x86, 0x48, 0x01, 0x65, 0x03, 0x04, 0x02,
            0x02, 0x05, 0x00, 0x04, 0x30,
        ],
        DigestAlgorithm::Sha512 => {
            return Err(CryptoError::UnsupportedKeyType(String::from_str("hash RSA no compatible")));
        },
    };
    let ghost header = info@;
    let mut i: usize = 0;
    while i < hash.len()
        invariant
            i <= hash@.len(),
            info@ == header + hash@.subrange(0, i as int),
        decreases hash@.len() - i,
    {
        info.push(hash[i]);
        i = i + 1;
        assert(info@ =~= header + hash@.subrange(0, i as int));
    }
    assert(hash@.subrange(0, hash@.len() as int) =~= hash@);
    proof {
        match digest {
            DigestAlgorithm::Sha256 => assert(header =~= sha256_digest_info_prefix()),
            DigestAlgorithm::Sha384 => assert(header =~= sha384_digest_info_prefix()),
            DigestAlgorithm::Sha512 => {},
        }
    }
    Ok(info)
}

// ------------------------------------------------------- key selection

/// DER of the OID prime256v1 (1.2.840.10045.3.1.7), as PKCS#11 `CKA_EC_PARAMS`.
pub open spec fn p256_params() -> Seq<u8> {
    seq![0x06u8, 0x08, 0x2a, 0x86, 0x48, 0xce, 0x3d, 0x03, 0x01, 0x07]
}

/// DER of the OID secp384r1 (1.3.132.0.34), as PKCS#11 `CKA_EC_PARAMS`.
pub open spec fn p384_params() -> Seq<u8> {
    seq![0x06u8, 0x05, 0x2b, 0x81, 0x04, 0x00, 0x22]
}

/// The algorithms a private key signs with: RSA keys with SHA-256 and PKCS#1
/// v1.5, P-256 keys with SHA-256, P-384 keys with SHA-384; any other key is
/// not usable.
pub open spec fn spec_key_algorithms(kind: Option<KeyKind>, ec_params: Option<Seq<u8>>) -> Option<
    (DigestAlgorithm, SignatureAlgorithm),
> {
    match kind {
        Some(KeyKind::Rsa) => Some((DigestAlgorithm::Sha256, SignatureAlgorithm::RsaPkcs1v15)),
        Some(KeyKind::Ec) => match ec_params {
            Some(p) => if p == p256_params() {
                Some((DigestAlgorithm::Sha256, SignatureAlgorithm::EcdsaP256))
            } else if p == p384_params() {
                Some((DigestAlgorithm::Sha384, SignatureAlgorithm::EcdsaP384))
            } else {
                None
            },
            None => None,
        },
        _ => None,
    }
}

fn bytes_equal(a: &Vec<u8>, b: &Vec<u8>) -> (r: bool)
    ensures
        r == (a@ == b@),
{
    if a.len() != b.len() {
        return false;
    }
    let mut i: usize = 0;
    while i < a.len()
        invariant
            i <= a.len(),
            a.len() == b.len(),
            forall|j: int| 0 <= j < i ==> a@[j] == b@[j],
        decreases a.len() - i,
    {
        if a[i] != b[i] {
            return false;
        }
        i = i + 1;
    }
    assert(a@ =~= b@);
    true
}

/// The algorithms a token's private key signs with, from its PKCS#11 key
/// type and (for EC keys) its curve parameters; `None` for keys Nitum
/// cannot use.
pub fn key_algorithms(kind: Option<KeyKind>, ec_params: Option<Vec<u8>>) -> (r: Option<
    (DigestAlgorithm, SignatureAlgorithm),
>)
    ensures
        r == spec_key_algorithms(
            kind,
            match ec_params {
                Some(p) => Some(p@),
                None => None,
            },
        ),
{
    match kind {
        Some(KeyKind::Rsa) => Some((DigestAlgorithm::Sha256, SignatureAlgorithm::RsaPkcs1v15)),
        Some(KeyKind::Ec) => match ec_params {
            Some(p) => {
                let p256: Vec<u8> = vec![0x06u8, 0x08, 0x2a, 0x86, 0x48, 0xce, 0x3d, 0x03, 0x01, 0x07];
                let p384: Vec<u8> = vec![0x06u8, 0x05, 0x2b, 0x81, 0x04, 0x00, 0x22];
                assert(p256@ =~= p256_params());
                assert(p384@ =~= p384_params());
                if bytes_equal(&p, &p256) {
                    Some((DigestAlgorithm::Sha256, SignatureAlgorithm::EcdsaP256))
                } else if bytes_equal(&p, &p384) {
                    Some((DigestAlgorithm::Sha384, SignatureAlgorithm::EcdsaP384))
                } else {
                    None
                }
            },
            None => None,
        },
        _ => None,
    }
}

} // verus!
