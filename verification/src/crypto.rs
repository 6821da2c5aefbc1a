//! Password encryption for the two login steps: AES-CBC for CAS, RSA
//! PKCS#1 v1.5 for the academic-affairs system, both Base64-encoded.
use vstd::prelude::*;
use crate::error::ZustError;
use base64::Engine;
use cbc::cipher::{BlockEncryptMut, KeyIvInit};
use rand::Rng;
use rsa::traits::PublicKeyParts;
use crate::text::{concat, decimal, push_char, u64_to_decimal};

verus! {

broadcast use vstd::string::group_string_axioms;

/// The characters of random prefixes and IVs (no `0`, `O`, `1`, `l` or `9`).
pub const CHARS: &'static str = "ABCDEFGHJKMNPQRSTWXYZabcdefhijkmnprstwxyz2345678";

/// A uniformly chosen index below `n`: `rand::thread_rng().gen_range(0..n)`.
/// The contract says only that the index is below `n`.
#[verifier::external_body]
fn random_index(n: usize) -> (r: usize)
    requires
        n > 0,
    ensures
        r < n,
{
    rand::thread_rng().gen_range(0..n)
}

/// The characters of `CHARS` at `indices`, in order.
pub fn chars_at(indices: &[usize]) -> (s: String)
    requires
        forall|i: int| 0 <= i < indices@.len() ==> #[trigger] indices@[i] < CHARS@.len(),
    ensures
        s@.len() == indices@.len(),
        forall|i: int| 0 <= i < indices@.len() ==> #[trigger] s@[i] == CHARS@[indices@[i] as int],
{
    let mut s = String::new();
    let mut i: usize = 0;
    while i < indices.len()
        invariant
            i <= indices@.len(),
            s@.len() == i,
            forall|k: int| 0 <= k < indices@.len() ==> #[trigger] indices@[k] < CHARS@.len(),
            forall|k: int| 0 <= k < i ==> #[trigger] s@[k] == CHARS@[indices@[k] as int],
        decreases indices@.len() - i,
    {
        let c = CHARS.get_char(indices[i]);
        push_char(&mut s, c);
        assert(s@[i as int] == c);
        i += 1;
    }
    s
}

/// `len` characters drawn at random from `CHARS`.
pub fn random_chars(len: usize) -> (s: String)
    ensures
        s@.len() == len,
        forall|i: int| 0 <= i < len ==> CHARS@.contains(#[trigger] s@[i]),
{
    let n = CHARS.unicode_len();
    proof {
        reveal_strlit("ABCDEFGHJKMNPQRSTWXYZabcdefhijkmnprstwxyz2345678");
    }
    let mut indices: Vec<usize> = Vec::new();
    let mut i: usize = 0;
    while i < len
        invariant
            i <= len,
            n == CHARS@.len(),
            n > 0,
            indices@.len() == i,
            forall|k: int| 0 <= k < i ==> #[trigger] indices@[k] < n,
        decreases len - i,
    {
        let idx = random_index(n);
        indices.push(idx);
        i += 1;
    }
    let s = chars_at(indices.as_slice());
    assert forall|k: int| 0 <= k < len implies CHARS@.contains(#[trigger] s@[k]) by {
        assert(s@[k] == CHARS@[indices@[k] as int]);
    }
    s
}

/// The characters of `CHARS` are ASCII, and none of them is one of the
/// ambiguous `0`, `O`, `1`, `l`, `9`.
pub proof fn law_chars_unambiguous()
    ensures
        vstd::utf8::is_ascii_chars(CHARS@),
        !CHARS@.contains('0'),
        !CHARS@.contains('O'),
        !CHARS@.contains('1'),
        !CHARS@.contains('l'),
        !CHARS@.contains('9'),
{
    reveal_strlit("ABCDEFGHJKMNPQRSTWXYZabcdefhijkmnprstwxyz2345678");
}

/// The PKCS#7 padding of `len` bytes to whole 16-byte blocks: between 1 and
/// 16 bytes, each holding the padding's length.
pub open spec fn pkcs7_padding(len: nat) -> Seq<u8> {
    let p = (16 - len % 16) as nat;
    Seq::new(p, |i: int| p as u8)
}

/// `plain` followed by its PKCS#7 padding.
pub fn pkcs7_pad(plain: &[u8]) -> (buf: Vec<u8>)
    requires
        plain@.len() + 16 <= usize::MAX,
    ensures
        buf@ == plain@ + pkcs7_padding(plain@.len()),
        buf@.len() == (plain@.len() / 16 + 1) * 16,
{
    let pad: usize = 16 - plain.len() % 16;
    let mut buf: Vec<u8> = Vec::new();
    let mut i: usize = 0;
    while i < plain.len()
        invariant
            i <= plain@.len(),
            buf@ == plain@.take(i as int),
        decreases plain.len() - i,
    {
        buf.push(plain[i]);
        assert(buf@ =~= plain@.take(i as int + 1));
        i += 1;
    }
    assert(plain@.take(plain@.len() as int) =~= plain@);
    let mut j: usize = 0;
    while j < pad
        invariant
            j <= pad,
            pad == 16 - plain@.len() % 16,
            1 <= pad <= 16,
            buf@ == plain@ + Seq::new(j as nat, |k: int| pad as u8),
        decreases pad - j,
    {
        buf.push(pad as u8);
        assert(buf@ =~= plain@ + Seq::new((j + 1) as nat, |k: int| pad as u8));
        j += 1;
    }
    assert(buf@ =~= plain@ + pkcs7_padding(plain@.len()));
    buf
}

/// A name for the AES-128-CBC encryption, under `key` and `iv`, of `msg`
/// padded with PKCS#7.
pub uninterp spec fn aes128_cbc_pkcs7(key: Seq<u8>, iv: Seq<u8>, msg: Seq<u8>) -> Seq<u8>;

/// `cbc::Encryptor::<aes::Aes128>::new(key, iv).encrypt_padded_mut::<Pkcs7>(buf, msg_len)`:
/// encrypts the first `msg_len` bytes of `buf` with their padding, which has
/// to fit in `buf`; the ciphertext is whole blocks.
#[verifier::external_body]
fn aes128_cbc_encrypt(key: &[u8], iv: &[u8], buf: Vec<u8>, msg_len: usize) -> (r: Option<Vec<u8>>)
    requires
        key@.len() == 16,
        iv@.len() == 16,
        msg_len <= buf@.len(),
    ensures
        match r {
            Some(ct) => (msg_len / 16 + 1) * 16 <= buf@.len() && ct@ == aes128_cbc_pkcs7(key@, iv@, buf@.take(msg_len as int))
                && ct@.len() == (msg_len / 16 + 1) * 16,
            None => (msg_len / 16 + 1) * 16 > buf@.len(),
        },
{
    let mut buf = buf;
    let enc = cbc::Encryptor::<aes::Aes128>::new(key.into(), iv.into());
    match enc.encrypt_padded_mut::<block_padding::Pkcs7>(&mut buf, msg_len) {
        Ok(ct) => Some(ct.to_vec()),
        Err(_) => None,
    }
}

/// The Base64 alphabet of RFC 4648 (standard, not URL-safe).
pub open spec fn b64_char(v: int) -> char {
    if v < 26 {
        (v + 65) as char
    } else if v < 52 {
        (v - 26 + 97) as char
    } else if v < 62 {
        (v - 52 + 48) as char
    } else if v == 62 {
        '+'
    } else {
        '/'
    }
}

/// Standard Base64 with `=` padding (RFC 4648).
pub open spec fn b64_encode(d: Seq<u8>) -> Seq<char>
    decreases d.len(),
{
    if d.len() == 0 {
        Seq::<char>::empty()
    } else if d.len() == 1 {
        seq![b64_char((d[0] / 4) as int), b64_char((d[0] % 4) * 16), '=', '=']
    } else if d.len() == 2 {
        seq![
            b64_char((d[0] / 4) as int),
            b64_char((d[0] % 4) * 16 + d[1] / 16),
            b64_char((d[1] % 16) * 4),
            '=',
        ]
    } else {
        seq![
            b64_char((d[0] / 4) as int),
            b64_char((d[0] % 4) * 16 + d[1] / 16),
            b64_char((d[1] % 16) * 4 + d[2] / 64),
            b64_char((d[2] % 64) as int),
        ] + b64_encode(d.skip(3))
    }
}

/// `base64::engine::general_purpose::STANDARD.encode`: standard Base64 with
/// padding.
#[verifier::external_body]
fn base64_encode(data: &[u8]) -> (r: String)
    ensures
        r@ == b64_encode(data@),
{
    base64::engine::general_purpose::STANDARD.encode(data)
}

/// `base64::engine::general_purpose::STANDARD.decode` of the bytes of `s`.
/// That engine requires canonical padding and no trailing bits, so it
/// accepts exactly the encodings of byte strings, and gives back the bytes
/// encoded. On failure the error's text; nothing is said of that text.
#[verifier::external_body]
fn base64_decode(s: &str) -> (r: Result<Vec<u8>, String>)
    ensures
        match r {
            Ok(v) => b64_encode(v@) == s@,
            Err(_) => forall|b: Seq<u8>| b64_encode(b) != s@,
        },
{
    match base64::engine::general_purpose::STANDARD.decode(s) {
        Ok(v) => Ok(v),
        Err(e) => Err(e.to_string()),
    }
}

/// The Base64 encoding of `data` (what the password encryptions return).
pub fn encode_base64(data: &[u8]) -> (r: String)
    ensures
        r@ == b64_encode(data@),
{
    base64_encode(data)
}

/// The bytes whose Base64 encoding is `s`, if there are any.
pub open spec fn b64_decoded(s: Seq<char>) -> Option<Seq<u8>> {
    if exists|b: Seq<u8>| b64_encode(b) == s {
        Some(choose|b: Seq<u8>| b64_encode(b) == s)
    } else {
        None
    }
}

/// Decoding gives back what was encoded.
pub proof fn law_b64_roundtrip(b: Seq<u8>)
    ensures
        b64_decoded(b64_encode(b)) == Some(b),
{
    let s = b64_encode(b);
    assert(exists|x: Seq<u8>| b64_encode(x) == s);
    let c = choose|x: Seq<u8>| b64_encode(x) == s;
    law_b64_injective(c, b);
}

/// The bytes whose Base64 encoding is `s`; `None` when `s` is no such
/// encoding.
pub fn decode_base64(s: &str) -> (r: Option<Vec<u8>>)
    ensures
        match r {
            Some(v) => b64_decoded(s@) == Some(v@),
            None => b64_decoded(s@) is None,
        },
{
    match base64_decode(s) {
        Ok(v) => {
            proof {
                law_b64_roundtrip(v@);
            }
            Some(v)
        },
        Err(_) => None,
    }
}

/// The text the CAS encryption fails with when the salt is not 16 bytes.
pub open spec fn bad_salt_text(len: nat) -> Seq<char> {
    "CAS salt_key must be 16 bytes, got "@ + decimal(len)
}

/// `c` is a character of `CHARS`, and `s` is made of such characters.
pub open spec fn drawn_from_chars(s: Seq<char>, len: nat) -> bool {
    s.len() == len && forall|i: int| 0 <= i < len ==> CHARS@.contains(#[trigger] s[i])
}

/// CAS password encryption: a random 64-character prefix is put before the
/// password, the result is encrypted with AES-128-CBC (PKCS#7 padding) under
/// the 16-byte salt and a random 16-character IV, and the ciphertext is
/// Base64-encoded. A salt of any other length is refused.
pub fn cas_encrypt_password(password: &str, salt_key: &str) -> (r: Result<String, ZustError>)
    requires
        vstd::utf8::encode_utf8(password@).len() + 100 <= usize::MAX,
    ensures
        vstd::utf8::encode_utf8(salt_key@).len() != 16 ==> (r matches Err(ZustError::Crypto(m)) && m@
            == bad_salt_text(vstd::utf8::encode_utf8(salt_key@).len())),
        vstd::utf8::encode_utf8(salt_key@).len() == 16 ==> (r matches Ok(s) && exists|
            prefix: Seq<char>,
            iv: Seq<char>,
        |
            drawn_from_chars(prefix, 64) && drawn_from_chars(iv, 16) && s@ == b64_encode(
                aes128_cbc_pkcs7(
                    vstd::utf8::encode_utf8(salt_key@),
                    vstd::utf8::encode_utf8(iv),
                    vstd::utf8::encode_utf8(prefix + password@),
                ),
            ) && aes128_cbc_pkcs7(
                vstd::utf8::encode_utf8(salt_key@),
                vstd::utf8::encode_utf8(iv),
                vstd::utf8::encode_utf8(prefix + password@),
            ).len() == ((64 + vstd::utf8::encode_utf8(password@).len()) / 16 + 1) * 16),
{
    let prefix = random_chars(64);
    let iv_str = random_chars(16);
    let plain = concat(prefix.as_str(), password);
    let key_bytes = salt_key.as_bytes();
    let iv_bytes = iv_str.as_str().as_bytes();
    if key_bytes.len() != 16 {
        let got = u64_to_decimal(key_bytes.len() as u64);
        return Err(ZustError::Crypto(concat("CAS salt_key must be 16 bytes, got ", got.as_str())));
    }
    proof {
        lemma_drawn_is_ascii(iv_str@, 16);
        lemma_drawn_is_ascii(prefix@, 64);
        vstd::utf8::is_ascii_chars_encode_utf8(iv_str@);
        vstd::utf8::is_ascii_chars_encode_utf8(prefix@);
        lemma_encode_utf8_concat(prefix@, password@);
    }
    let plain_bytes = plain.as_str().as_bytes();
    let buf = pkcs7_pad(plain_bytes);
    let msg_len = plain_bytes.len();
    assert(buf@.take(msg_len as int) =~= plain_bytes@);
    match aes128_cbc_encrypt(key_bytes, iv_bytes, buf, msg_len) {
        Some(ct) => {
            let s = base64_encode(ct.as_slice());
            assert(drawn_from_chars(prefix@, 64));
            assert(drawn_from_chars(iv_str@, 16));
            assert(msg_len == 64 + vstd::utf8::encode_utf8(password@).len());
            Ok(s)
        },
        None => Err(ZustError::Crypto("AES encryption failed: Padding error".to_string())),
    }
}

/// UTF-8 encoding distributes over concatenation.
pub proof fn lemma_encode_utf8_concat(a: Seq<char>, b: Seq<char>)
    ensures
        vstd::utf8::encode_utf8(a + b) == vstd::utf8::encode_utf8(a) + vstd::utf8::encode_utf8(b),
    decreases a.len(),
{
    if a.len() > 0 {
        lemma_encode_utf8_concat(a.drop_first(), b);
        assert((a + b).drop_first() =~= a.drop_first() + b);
        assert((a + b)[0] == a[0]);
        assert(vstd::utf8::encode_utf8(a + b) =~= vstd::utf8::encode_scalar(a[0] as u32)
            + vstd::utf8::encode_utf8(a.drop_first()) + vstd::utf8::encode_utf8(b));
    } else {
        assert(a + b =~= b);
    }
}

/// Text drawn from `CHARS` is ASCII.
proof fn lemma_drawn_is_ascii(s: Seq<char>, len: nat)
    requires
        drawn_from_chars(s, len),
    ensures
        vstd::utf8::is_ascii_chars(s),
{
    law_chars_unambiguous();
    assert forall|i: int| 0 <= i < s.len() implies '\0' <= #[trigger] s[i] <= '\u{7f}' by {
        assert(CHARS@.contains(s[i]));
        let j = choose|j: int| 0 <= j < CHARS@.len() && CHARS@[j] == s[i];
        assert('\0' <= CHARS@[j] <= '\u{7f}');
    }
}


proof fn lemma_b64_char(v: int, w: int)
    requires
        0 <= v < 64,
        0 <= w < 64,
    ensures
        b64_char(v) != '=',
        b64_char(v) == b64_char(w) ==> v == w,
{
}

/// Distinct byte strings have distinct Base64 encodings.
pub proof fn law_b64_injective(a: Seq<u8>, b: Seq<u8>)
    requires
        b64_encode(a) == b64_encode(b),
    ensures
        a == b,
    decreases a.len(),
{
    let ea = b64_encode(a);
    let eb = b64_encode(b);
    if a.len() == 0 || b.len() == 0 {
        if a.len() != 0 {
            assert(ea.len() >= 4);
        }
        if b.len() != 0 {
            assert(eb.len() >= 4);
        }
        assert(a =~= b);
        return;
    }
    let a0 = a[0] as int;
    let b0 = b[0] as int;
    lemma_b64_char(a0 / 4, b0 / 4);
    assert(ea[0] == b64_char(a0 / 4));
    assert(eb[0] == b64_char(b0 / 4));
    if a.len() >= 3 {
        let a1 = a[1] as int;
        let a2 = a[2] as int;
        assert(ea[3] == b64_char(a2 % 64));
        lemma_b64_char(a2 % 64, 0);
        lemma_b64_char(((a[1] as int) % 16) * 4 + a2 / 64, 0);
        assert(ea[2] == b64_char((a1 % 16) * 4 + a2 / 64));
        if b.len() == 1 {
            assert(eb[3] == '=');
            assert(false);
        }
        if b.len() == 2 {
            assert(eb[3] == '=');
            assert(false);
        }
        let b1 = b[1] as int;
        let b2 = b[2] as int;
        lemma_b64_char((a0 % 4) * 16 + a1 / 16, (b0 % 4) * 16 + b1 / 16);
        lemma_b64_char((a1 % 16) * 4 + a2 / 64, (b1 % 16) * 4 + b2 / 64);
        lemma_b64_char(a2 % 64, b2 % 64);
        assert(ea[1] == b64_char((a0 % 4) * 16 + a1 / 16));
        assert(eb[1] == b64_char((b0 % 4) * 16 + b1 / 16));
        assert(eb[2] == b64_char((b1 % 16) * 4 + b2 / 64));
        assert(eb[3] == b64_char(b2 % 64));
        assert(a0 == b0);
        assert(a1 == b1);
        assert(a2 == b2);
        let ra = b64_encode(a.skip(3));
        let rb = b64_encode(b.skip(3));
        assert(ea =~= seq![ea[0], ea[1], ea[2], ea[3]] + ra);
        assert(eb =~= seq![eb[0], eb[1], eb[2], eb[3]] + rb);
        assert(ra =~= ea.skip(4));
        assert(rb =~= eb.skip(4));
        law_b64_injective(a.skip(3), b.skip(3));
        assert(a =~= seq![a[0], a[1], a[2]] + a.skip(3));
        assert(b =~= seq![b[0], b[1], b[2]] + b.skip(3));
        return;
    }
    if b.len() >= 3 {
        law_b64_injective(b, a);
        return;
    }
    if a.len() == 1 && b.len() == 2 {
        let b1 = b[1] as int;
        lemma_b64_char((b1 % 16) * 4, 0);
        assert(eb[2] == b64_char((b1 % 16) * 4));
        assert(ea[2] == '=');
        assert(false);
    }
    if a.len() == 2 && b.len() == 1 {
        let a1 = a[1] as int;
        lemma_b64_char((a1 % 16) * 4, 0);
        assert(ea[2] == b64_char((a1 % 16) * 4));
        assert(eb[2] == '=');
        assert(false);
    }
    if a.len() == 1 {
        lemma_b64_char((a0 % 4) * 16, (b0 % 4) * 16);
        assert(ea[1] == b64_char((a0 % 4) * 16));
        assert(eb[1] == b64_char((b0 % 4) * 16));
        assert(a0 == b0);
        assert(a =~= b);
    } else {
        let a1 = a[1] as int;
        let b1 = b[1] as int;
        lemma_b64_char((a0 % 4) * 16 + a1 / 16, (b0 % 4) * 16 + b1 / 16);
        lemma_b64_char((a1 % 16) * 4, (b1 % 16) * 4);
        assert(ea[1] == b64_char((a0 % 4) * 16 + a1 / 16));
        assert(eb[1] == b64_char((b0 % 4) * 16 + b1 / 16));
        assert(ea[2] == b64_char((a1 % 16) * 4));
        assert(eb[2] == b64_char((b1 % 16) * 4));
        assert(a0 == b0);
        assert(a1 == b1);
        assert(a =~= b);
    }
}


/// The value of a big-endian byte string.
pub open spec fn be_value(bytes: Seq<u8>) -> nat
    decreases bytes.len(),
{
    if bytes.len() == 0 {
        0
    } else {
        be_value(bytes.drop_last()) * 256 + (bytes.last() as nat)
    }
}

/// The number of bytes of `n` without leading zero bytes (the RSA key size
/// for a modulus `n`: `(bits + 7) / 8`).
pub open spec fn byte_len(n: nat) -> nat
    decreases n,
{
    if n == 0 {
        0
    } else {
        1 + byte_len(n / 256)
    }
}

/// The public-key checks of `rsa::RsaPublicKey::new`: a modulus of at most
/// 4096 bits, odd, above the exponent; an odd exponent between 2 and 2^33 − 1.
pub open spec fn rsa_key_ok(n: nat, e: nat) -> bool {
    &&& n < vstd::arithmetic::power2::pow2(4096)
    &&& e < n
    &&& n % 2 == 1
    &&& e % 2 == 1
    &&& 2 <= e
    &&& e <= vstd::arithmetic::power2::pow2(33) - 1
}

#[verifier::external_type_specification]
#[verifier::external_body]
pub struct ExRsaPublicKey(rsa::RsaPublicKey);

/// An RSA public key together with its size in bytes and the big-endian
/// bytes of its modulus and exponent.
pub struct RsaKey {
    key: rsa::RsaPublicKey,
    size: usize,
    n_bytes: Vec<u8>,
    e_bytes: Vec<u8>,
}

impl RsaKey {
    /// The key's size in bytes.
    pub closed spec fn key_size(&self) -> nat {
        self.size as nat
    }

    /// The key's modulus.
    pub closed spec fn modulus(&self) -> nat {
        be_value(self.n_bytes@)
    }

    /// The key's public exponent.
    pub closed spec fn exponent(&self) -> nat {
        be_value(self.e_bytes@)
    }
}

/// `em` is a PKCS#1 v1.5 encryption block of `k` bytes for the message
/// `m`: `0x00 0x02`, then at least eight non-zero padding bytes, `0x00`, and
/// the message.
pub open spec fn pkcs1v15_block(em: Seq<u8>, m: Seq<u8>, k: nat) -> bool {
    &&& em.len() == k
    &&& m.len() + 11 <= k
    &&& em[0] == 0
    &&& em[1] == 2
    &&& forall|i: int| 2 <= i < k - m.len() - 1 ==> em[i] != 0
    &&& em[k - m.len() - 1] == 0
    &&& em.skip(k - m.len()) == m
}

/// `c` is an RSA PKCS#1 v1.5 encryption of `m` under the public key
/// (`n`, `e`) of `k` bytes: the `k` big-endian bytes of `em^e mod n` for a
/// PKCS#1 v1.5 block `em` of `m` (whose padding is random).
pub open spec fn rsa_pkcs1v15_of(c: Seq<u8>, m: Seq<u8>, n: nat, e: nat, k: nat) -> bool {
    &&& c.len() == k
    &&& exists|em: Seq<u8>| #[trigger] pkcs1v15_block(em, m, k)
        && be_value(c) == vstd::arithmetic::power::pow(be_value(em) as int, e) % (n as int)
}

/// `rsa::RsaPublicKey::new` of the big-endian modulus `n` and exponent `e`
/// (`BigUint::from_bytes_be`), with the key's size (`PublicKeyParts::size`).
/// It succeeds exactly when the key passes the checks of `rsa_key_ok`; on
/// failure the error's text, of which nothing is said.
#[verifier::external_body]
fn rsa_public_key(n: &[u8], e: &[u8]) -> (r: Result<RsaKey, String>)
    ensures
        r is Ok <==> rsa_key_ok(be_value(n@), be_value(e@)),
        r matches Ok(k) ==> k.key_size() == byte_len(be_value(n@)) && k.modulus() == be_value(n@)
            && k.exponent() == be_value(e@),
{
    let nv = rsa::BigUint::from_bytes_be(n);
    let ev = rsa::BigUint::from_bytes_be(e);
    match rsa::RsaPublicKey::new(nv, ev) {
        Ok(key) => {
            let size = key.size();
            Ok(RsaKey { key, size, n_bytes: n.to_vec(), e_bytes: e.to_vec() })
        },
        Err(err) => Err(err.to_string()),
    }
}

/// `RsaPublicKey::encrypt` with `Pkcs1v15Encrypt` and `rand::thread_rng()`:
/// it succeeds exactly when the message is at least 11 bytes shorter than
/// the key, and the ciphertext is the key-sized big-endian `em^e mod n` of
/// a PKCS#1 v1.5 block `em` of the message. The padding bytes are random,
/// so which block was used is not stated.
#[verifier::external_body]
fn rsa_encrypt_pkcs1v15(key: &RsaKey, msg: &[u8]) -> (r: Result<Vec<u8>, String>)
    ensures
        r is Ok <==> msg@.len() + 11 <= key.key_size(),
        r matches Ok(c) ==> rsa_pkcs1v15_of(c@, msg@, key.modulus(), key.exponent(), key.key_size()),
{
    let mut rng = rand::thread_rng();
    match key.key.encrypt(&mut rng, rsa::Pkcs1v15Encrypt, msg) {
        Ok(c) => Ok(c),
        Err(err) => Err(err.to_string()),
    }
}

/// `r` is the error `ZustError::Crypto` whose text starts with `head`.
pub open spec fn crypto_error_with(r: Result<String, ZustError>, head: Seq<char>) -> bool {
    r matches Err(ZustError::Crypto(m)) && head.len() <= m@.len() && m@.take(head.len() as int) == head
}

/// The academic-affairs password encryption: the Base64 modulus and exponent
/// are decoded to a public key, the password's UTF-8 bytes are encrypted
/// with RSA PKCS#1 v1.5 (random padding), and the ciphertext is
/// Base64-encoded. Each failing step gives its own error.
pub fn wisedu_encrypt_password(password: &str, modulus_b64: &str, exponent_b64: &str) -> (r: Result<String, ZustError>)
    ensures
        b64_decoded(modulus_b64@) is None ==> crypto_error_with(r, "modulus base64 decode: "@),
        b64_decoded(modulus_b64@) is Some && b64_decoded(exponent_b64@) is None ==> crypto_error_with(
            r,
            "exponent base64 decode: "@,
        ),
        b64_decoded(modulus_b64@) matches Some(n) ==> (b64_decoded(exponent_b64@) matches Some(e) ==> {
            let nv = be_value(n);
            let ev = be_value(e);
            let m = vstd::utf8::encode_utf8(password@);
            &&& !rsa_key_ok(nv, ev) ==> crypto_error_with(r, "RSA key construction: "@)
            &&& rsa_key_ok(nv, ev) && m.len() + 11 > byte_len(nv) ==> crypto_error_with(r, "RSA encryption: "@)
            &&& rsa_key_ok(nv, ev) && m.len() + 11 <= byte_len(nv) ==> (r matches Ok(s) && exists|c: Seq<u8>|
                #[trigger] b64_encode(c) == s@ && rsa_pkcs1v15_of(c, m, nv, ev, byte_len(nv)))
        }),
{
    let n_bytes = match decode_base64_text(modulus_b64) {
        Ok(v) => v,
        Err(t) => {
            return crypto_err("modulus base64 decode: ", t.as_str());
        },
    };
    let e_bytes = match decode_base64_text(exponent_b64) {
        Ok(v) => v,
        Err(t) => {
            return crypto_err("exponent base64 decode: ", t.as_str());
        },
    };
    let key = match rsa_public_key(n_bytes.as_slice(), e_bytes.as_slice()) {
        Ok(k) => k,
        Err(t) => {
            return crypto_err("RSA key construction: ", t.as_str());
        },
    };
    let cipher = match rsa_encrypt_pkcs1v15(&key, password.as_bytes()) {
        Ok(c) => c,
        Err(t) => {
            return crypto_err("RSA encryption: ", t.as_str());
        },
    };
    let s = base64_encode(cipher.as_slice());
    assert(b64_encode(cipher@) == s@);
    Ok(s)
}

/// The error `ZustError::Crypto(head + detail)`.
fn crypto_err(head: &str, detail: &str) -> (r: Result<String, ZustError>)
    ensures
        crypto_error_with(r, head@),
{
    let m = concat(head, detail);
    assert(m@.take(head@.len() as int) =~= head@);
    Err(ZustError::Crypto(m))
}

/// Base64 decoding that keeps the decoder's error text.
fn decode_base64_text(s: &str) -> (r: Result<Vec<u8>, String>)
    ensures
        match r {
            Ok(v) => b64_decoded(s@) == Some(v@),
            Err(_) => b64_decoded(s@) is None,
        },
{
    match base64_decode(s) {
        Ok(v) => {
            proof {
                law_b64_roundtrip(v@);
            }
            Ok(v)
        },
        Err(t) => Err(t),
    }
}


/// PKCS#7 padding fills `plain` up to the next whole 16-byte block, adding
/// between 1 and 16 bytes that each hold the number of bytes added; the
/// last byte of the padded text says how many bytes to strip to get
/// `plain` back.
pub proof fn law_pkcs7_padding(plain: Seq<u8>)
    ensures
        1 <= pkcs7_padding(plain.len()).len() <= 16,
        (plain.len() + pkcs7_padding(plain.len()).len()) % 16 == 0,
        forall|i: int| 0 <= i < pkcs7_padding(plain.len()).len() ==> #[trigger] pkcs7_padding(plain.len())[i] == pkcs7_padding(plain.len()).len(),
        ({
            let padded = plain + pkcs7_padding(plain.len());
            padded.take(padded.len() - padded.last()) == plain
        }),
{
    let pad = pkcs7_padding(plain.len());
    let padded = plain + pad;
    assert(padded.last() == pad[pad.len() - 1]);
    assert(padded.take(padded.len() - padded.last()) =~= plain);
}
} // verus!


