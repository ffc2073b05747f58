//! Byte encodings and digests used by the OAuth flows: unpadded URL-safe
//! base64, SHA-256, URL percent-encoding, and random bytes.

use vstd::prelude::*;
use vstd::string::StringSliceAdditionalSpecFns;

use base64::Engine as _;
use rand::RngCore as _;
use sha2::Digest as _;

verus! {

#[verifier::external_type_specification]
#[verifier::external_body]
pub struct ExDecodeError(base64::DecodeError);

/// The character of the URL-safe base64 alphabet (RFC 4648, section 5)
/// for the six-bit value `v`.
pub open spec fn base64_url_char(v: int) -> char {
    if v < 26 {
        ('A' as int + v) as char
    } else if v < 52 {
        ('a' as int + (v - 26)) as char
    } else if v < 62 {
        ('0' as int + (v - 52)) as char
    } else if v == 62 {
        '-'
    } else {
        '_'
    }
}

/// URL-safe base64 without padding: each group of three bytes becomes four
/// characters, and a final group of one or two bytes becomes two or three
/// characters whose unused low bits are zero.
pub open spec fn base64_url(b: Seq<u8>) -> Seq<char>
    decreases b.len(),
{
    if b.len() == 0 {
        Seq::empty()
    } else {
        let b0 = b[0] as int;
        let b1 = if b.len() > 1 { b[1] as int } else { 0 };
        let b2 = if b.len() > 2 { b[2] as int } else { 0 };
        if b.len() == 1 {
            seq![base64_url_char(b0 / 4), base64_url_char((b0 % 4) * 16)]
        } else if b.len() == 2 {
            seq![
                base64_url_char(b0 / 4),
                base64_url_char((b0 % 4) * 16 + b1 / 16),
                base64_url_char((b1 % 16) * 4),
            ]
        } else {
            seq![
                base64_url_char(b0 / 4),
                base64_url_char((b0 % 4) * 16 + b1 / 16),
                base64_url_char((b1 % 16) * 4 + b2 / 64),
                base64_url_char(b2 % 64),
            ] + base64_url(b.skip(3))
        }
    }
}

/// Different six-bit values have different characters.
pub proof fn lemma_base64_url_char_injective(v: int, w: int)
    requires
        0 <= v < 64,
        0 <= w < 64,
        base64_url_char(v) == base64_url_char(w),
    ensures
        v == w,
{
    let cv = base64_url_char(v) as int;
    let cw = base64_url_char(w) as int;
    assert(cv == cw);
}

/// The length of `base64_url(b)` depends on the length of `b` alone.
pub open spec fn base64_url_len(n: int) -> int {
    4 * (n / 3) + (if n % 3 == 0 {
        0
    } else {
        n % 3 + 1
    })
}

pub proof fn lemma_base64_url_len(b: Seq<u8>)
    ensures
        base64_url(b).len() == base64_url_len(b.len() as int),
    decreases b.len(),
{
    if b.len() >= 3 {
        lemma_base64_url_len(b.skip(3));
    }
}

/// `base64_url` is one to one: a text encodes at most one byte sequence,
/// so the bytes that a decoder gives back are determined by its input.
pub proof fn lemma_base64_url_injective(b1: Seq<u8>, b2: Seq<u8>)
    requires
        base64_url(b1) == base64_url(b2),
    ensures
        b1 == b2,
    decreases b1.len(),
{
    let e = base64_url(b1);
    lemma_base64_url_len(b1);
    lemma_base64_url_len(b2);
    let n1 = b1.len() as int;
    let n2 = b2.len() as int;
    assert(n1 == n2) by {
        assert(base64_url_len(n1) == base64_url_len(n2));
    }
    if n1 == 0 {
        assert(b1 =~= b2);
    } else {
        let x0 = b1[0] as int;
        let y0 = b2[0] as int;
        let x1 = if n1 > 1 { b1[1] as int } else { 0 };
        let y1 = if n1 > 1 { b2[1] as int } else { 0 };
        let x2 = if n1 > 2 { b1[2] as int } else { 0 };
        let y2 = if n1 > 2 { b2[2] as int } else { 0 };
        assert(e[0] == base64_url(b2)[0]);
        assert(e[1] == base64_url(b2)[1]);
        lemma_base64_url_char_injective(x0 / 4, y0 / 4);
        if n1 == 1 {
            lemma_base64_url_char_injective((x0 % 4) * 16, (y0 % 4) * 16);
            assert(x0 == y0);
            assert(b1 =~= b2);
        } else {
            assert(e[2] == base64_url(b2)[2]);
            lemma_base64_url_char_injective((x0 % 4) * 16 + x1 / 16, (y0 % 4) * 16 + y1 / 16);
            assert(x0 % 4 == y0 % 4 && x1 / 16 == y1 / 16);
            assert(x0 == y0);
            if n1 == 2 {
                lemma_base64_url_char_injective((x1 % 16) * 4, (y1 % 16) * 4);
                assert(x1 == y1);
                assert(b1 =~= b2);
            } else {
                assert(e[3] == base64_url(b2)[3]);
                lemma_base64_url_char_injective((x1 % 16) * 4 + x2 / 64, (y1 % 16) * 4 + y2 / 64);
                lemma_base64_url_char_injective(x2 % 64, y2 % 64);
                assert(x1 % 16 == y1 % 16 && x2 / 64 == y2 / 64);
                assert(x1 == y1);
                assert(x2 == y2);
                let t1 = b1.skip(3);
                let t2 = b2.skip(3);
                let g1 = seq![
                    base64_url_char(x0 / 4),
                    base64_url_char((x0 % 4) * 16 + x1 / 16),
                    base64_url_char((x1 % 16) * 4 + x2 / 64),
                    base64_url_char(x2 % 64),
                ];
                assert(e == g1 + base64_url(t1));
                assert(base64_url(b2) == g1 + base64_url(t2));
                assert(base64_url(t1) =~= e.skip(4));
                assert(base64_url(t2) =~= base64_url(b2).skip(4));
                lemma_base64_url_injective(t1, t2);
                assert(b1 =~= b2) by {
                    assert forall|k: int| 0 <= k < n1 implies b1[k] == b2[k] by {
                        if k >= 3 {
                            assert(b1[k] == t1[k - 3]);
                            assert(b2[k] == t2[k - 3]);
                        }
                    }
                }
            }
        }
    }
}

/// Unpadded URL-safe base64 is ASCII text without `.`.
pub proof fn lemma_base64_url_ascii(b: Seq<u8>)
    ensures
        forall|i: int|
            0 <= i < base64_url(b).len() ==> '\0' <= #[trigger] base64_url(b)[i]
                && base64_url(b)[i] <= '\u{7f}' && base64_url(b)[i] != '.',
    decreases b.len(),
{
    if b.len() >= 3 {
        lemma_base64_url_ascii(b.skip(3));
        let e = base64_url(b);
        let t = base64_url(b.skip(3));
        assert forall|i: int| 0 <= i < e.len() implies '\0' <= #[trigger] e[i] && e[i] <= '\u{7f}'
            && e[i] != '.' by {
            if i >= 4 {
                assert(e[i] == t[i - 4]);
            }
        }
    }
}

/// Each byte read as the character of the same number.
pub open spec fn latin1(b: Seq<u8>) -> Seq<char> {
    b.map_values(|x: u8| x as char)
}

/// Trusted: `Engine::encode` of `base64::engine::general_purpose::URL_SAFE_NO_PAD`,
/// which writes the URL-safe alphabet and no `=` padding.
#[verifier::external_body]
pub(crate) fn base64_url_encode(data: &[u8]) -> (r: String)
    ensures
        r@ == base64_url(data@),
{
    base64::engine::general_purpose::URL_SAFE_NO_PAD.encode(data)
}

/// Trusted: `Engine::decode` of `URL_SAFE_NO_PAD`. Its configuration
/// refuses `=` padding and non-zero trailing bits, so it accepts exactly
/// the texts that `base64_url` writes, and gives back the bytes they encode.
#[verifier::external_body]
pub(crate) fn base64_url_decode(input: &[u8]) -> (r: Result<Vec<u8>, base64::DecodeError>)
    ensures
        match r {
            Ok(b) => base64_url(b@) == latin1(input@),
            Err(_) => forall|b: Seq<u8>| base64_url(b) != latin1(input@),
        },
{
    base64::engine::general_purpose::URL_SAFE_NO_PAD.decode(input)
}

/// The SHA-256 digest of `data`.
pub uninterp spec fn sha256(data: Seq<u8>) -> Seq<u8>;

/// Trusted: `sha2::Sha256::digest`. What it computes is left to the name
/// `sha256`; the contract also states that a digest is 32 bytes long.
#[verifier::external_body]
pub(crate) fn sha256_digest(data: &[u8]) -> (r: Vec<u8>)
    ensures
        r@ == sha256(data@),
        r@.len() == 32,
{
    sha2::Sha256::digest(data).to_vec()
}

/// The PKCE `S256` code challenge of a code verifier (RFC 7636, section
/// 4.2): the unpadded URL-safe base64 of the SHA-256 digest of its bytes.
pub open spec fn pkce_challenge_spec(verifier: Seq<char>) -> Seq<char> {
    base64_url(sha256(vstd::utf8::encode_utf8(verifier)))
}

/// Computes the PKCE `S256` code challenge of `verifier`.
pub fn pkce_challenge(verifier: &str) -> (r: String)
    ensures
        r@ == pkce_challenge_spec(verifier@),
{
    let digest = sha256_digest(verifier.as_bytes());
    base64_url_encode(digest.as_slice())
}

/// Overwrites every byte of `buf` with random bytes.
///
/// Trusted: `rand::rng()` and `RngCore::fill_bytes`. Which bytes come out
/// is chance, so the contract states only that the length stays.
#[verifier::external_body]
pub(crate) fn fill_random(buf: &mut Vec<u8>)
    ensures
        final(buf)@.len() == old(buf)@.len(),
{
    rand::rng().fill_bytes(buf.as_mut_slice())
}

/// A random token: `bytes` random bytes in unpadded URL-safe base64.
pub fn random_urlsafe(bytes: usize) -> (r: String)
    ensures
        exists|b: Seq<u8>| b.len() == bytes && r@ == base64_url(b),
{
    let mut data: Vec<u8> = vec![0u8; bytes];
    fill_random(&mut data);
    let r = base64_url_encode(data.as_slice());
    assert(data@.len() == bytes && r@ == base64_url(data@));
    r
}

/// A byte that URL percent-encoding leaves as it is: an ASCII letter or
/// digit, `-`, `.`, `_` or `~`.
pub open spec fn url_unreserved(b: u8) -> bool {
    ||| (48 <= b && b <= 57)
    ||| (65 <= b && b <= 90)
    ||| (97 <= b && b <= 122)
    ||| b == 45
    ||| b == 46
    ||| b == 95
    ||| b == 126
}

/// The upper-case hexadecimal digit of `d < 16`.
pub open spec fn hex_upper(d: int) -> char {
    if d < 10 {
        ('0' as int + d) as char
    } else {
        ('A' as int + (d - 10)) as char
    }
}

/// URL percent-encoding of bytes: every byte but the unreserved ones
/// becomes `%` and two upper-case hexadecimal digits.
pub open spec fn percent_encoded(b: Seq<u8>) -> Seq<char>
    decreases b.len(),
{
    if b.len() == 0 {
        Seq::empty()
    } else {
        let head = if url_unreserved(b[0]) {
            seq![b[0] as char]
        } else {
            seq!['%', hex_upper(b[0] as int / 16), hex_upper(b[0] as int % 16)]
        };
        head + percent_encoded(b.drop_first())
    }
}

/// Trusted: `urlencoding::encode`, which percent-encodes every byte of the
/// UTF-8 form of the text except ASCII letters and digits and `-`, `_`,
/// `.`, `~`, writing the hexadecimal digits in upper case.
#[verifier::external_body]
pub(crate) fn url_encode(s: &str) -> (r: String)
    ensures
        r@ == percent_encoded(s.spec_bytes()),
{
    urlencoding::encode(s).into_owned()
}

} // verus!
