//! Digests, constant-time comparison, randomness and the capability encoding.

use vstd::prelude::*;
use sha2::Digest;
use subtle::ConstantTimeEq;
use base64::Engine;
use rand::RngCore;

verus! {

/// The SHA-256 digest of the UTF-8 encoding of a text.
pub uninterp spec fn sha256_of_text(text: Seq<char>) -> Seq<u8>;

/// The character of a six-bit value in the URL-safe base64 alphabet
/// (RFC 4648, section 5): `A-Z`, `a-z`, `0-9`, `-`, `_`.
pub open spec fn base64_url_digit(n: int) -> char {
    if n < 26 {
        ((65 + n) as u8) as char
    } else if n < 52 {
        ((97 + n - 26) as u8) as char
    } else if n < 62 {
        ((48 + n - 52) as u8) as char
    } else if n == 62 {
        '-'
    } else {
        '_'
    }
}

/// The unpadded URL-safe base64 encoding of some bytes: each group of
/// three bytes becomes four characters, a last group of two bytes three,
/// and a last single byte two.
pub open spec fn base64_url_no_pad(data: Seq<u8>) -> Seq<char>
    decreases data.len(),
{
    if data.len() == 0 {
        Seq::empty()
    } else if data.len() == 1 {
        let a = data[0] as int;
        seq![base64_url_digit(a / 4), base64_url_digit((a % 4) * 16)]
    } else if data.len() == 2 {
        let a = data[0] as int;
        let b = data[1] as int;
        seq![base64_url_digit(a / 4), base64_url_digit((a % 4) * 16 + b / 16), base64_url_digit((b % 16) * 4)]
    } else {
        let a = data[0] as int;
        let b = data[1] as int;
        let c = data[2] as int;
        seq![
            base64_url_digit(a / 4),
            base64_url_digit((a % 4) * 16 + b / 16),
            base64_url_digit((b % 16) * 4 + c / 64),
            base64_url_digit(c % 64),
        ] + base64_url_no_pad(data.skip(3))
    }
}

proof fn lemma_base64_url_digit(n: int)
    requires
        0 <= n < 64,
    ensures
        is_base64_url_char(base64_url_digit(n)),
{
}

/// The encoding of `n` bytes has `(4 * n + 2) / 3` characters, all from the
/// URL-safe alphabet.
pub proof fn base64_url_shape(data: Seq<u8>)
    ensures
        base64_url_no_pad(data).len() == (4 * data.len() + 2) / 3,
        forall|i: int| 0 <= i < base64_url_no_pad(data).len() ==> is_base64_url_char(#[trigger] base64_url_no_pad(data)[i]),
    decreases data.len(),
{
    let e = base64_url_no_pad(data);
    if data.len() == 0 {
    } else if data.len() < 3 {
        let a = data[0] as int;
        lemma_base64_url_digit(a / 4);
        if data.len() == 1 {
            lemma_base64_url_digit((a % 4) * 16);
        } else {
            let b = data[1] as int;
            lemma_base64_url_digit((a % 4) * 16 + b / 16);
            lemma_base64_url_digit((b % 16) * 4);
        }
    } else {
        let a = data[0] as int;
        let b = data[1] as int;
        let c = data[2] as int;
        let rest = data.skip(3);
        base64_url_shape(rest);
        lemma_base64_url_digit(a / 4);
        lemma_base64_url_digit((a % 4) * 16 + b / 16);
        lemma_base64_url_digit((b % 16) * 4 + c / 64);
        lemma_base64_url_digit(c % 64);
        let head = seq![
            base64_url_digit(a / 4),
            base64_url_digit((a % 4) * 16 + b / 16),
            base64_url_digit((b % 16) * 4 + c / 64),
            base64_url_digit(c % 64),
        ];
        assert(e == head + base64_url_no_pad(rest));
        assert forall|i: int| 0 <= i < e.len() implies is_base64_url_char(#[trigger] e[i]) by {
            if i >= 4 {
                assert(e[i] == base64_url_no_pad(rest)[i - 4]);
            }
        }
    }
}

/// A character of the URL-safe base64 alphabet.
pub open spec fn is_base64_url_char(c: char) -> bool {
    ||| ('A' <= c && c <= 'Z')
    ||| ('a' <= c && c <= 'z')
    ||| ('0' <= c && c <= '9')
    ||| c == '-' || c == '_'
}

/// `sha2::Sha256::digest` of `text.as_bytes()`.
///
/// Trusted: the result is the digest named by `sha256_of_text`, and a SHA-256
/// digest is 32 bytes long.
#[verifier::external_body]
pub(crate) fn sha256_text(text: &str) -> (r: Vec<u8>)
    ensures
        r@ == sha256_of_text(text@),
        r@.len() == 32,
{
    sha2::Sha256::digest(text.as_bytes()).to_vec()
}

/// `subtle::ConstantTimeEq::ct_eq` on two byte slices, as a `bool`.
///
/// Trusted: the slice implementation returns true exactly when both slices
/// have the same length and the same bytes.
#[verifier::external_body]
pub(crate) fn constant_time_eq(a: &[u8], b: &[u8]) -> (r: bool)
    ensures
        r == (a@ == b@),
{
    bool::from(a.ct_eq(b))
}

/// `rand::rngs::OsRng::fill_bytes` on a 32-byte buffer.
///
/// Trusted only for the length: the bytes come from the operating system's
/// generator and nothing is stated of them.
#[verifier::external_body]
pub(crate) fn random_token_bytes() -> (r: Vec<u8>)
    ensures
        r@.len() == 32,
{
    let mut bytes = [0_u8; 32];
    rand::rngs::OsRng.fill_bytes(&mut bytes);
    bytes.to_vec()
}

/// `base64::engine::general_purpose::URL_SAFE_NO_PAD.encode`.
///
/// Trusted: the result is the RFC 4648 URL-safe encoding without padding,
/// as `base64_url_no_pad` states it.
#[verifier::external_body]
pub(crate) fn encode_base64_url(data: &[u8]) -> (r: String)
    ensures
        r@ == base64_url_no_pad(data@),
{
    base64::engine::general_purpose::URL_SAFE_NO_PAD.encode(data)
}

} // verus!
