//! The outside primitives that credentials are sealed with: SHA-256 for the key,
//! AES-256-GCM with a random 96-bit nonce for the password, and standard
//! base64 (with padding) for storing bytes as text.

use aes_gcm::aead::{Aead, KeyInit};
use aes_gcm::{Aes256Gcm, Nonce};
use base64::engine::general_purpose::STANDARD as BASE64;
use base64::Engine;
use rand::RngCore;
use sha2::{Digest, Sha256};
use vstd::prelude::*;

verus! {

/// The largest plaintext, in bytes, that AES-256-GCM seals (`aes_gcm::P_MAX`).
pub open spec fn aes_gcm_max_plaintext() -> int {
    0x10_0000_0000
}

/// The character for a 6-bit value in the standard base64 alphabet
/// `A-Z a-z 0-9 + /`.
pub open spec fn base64_symbol(v: int) -> char {
    if v < 26 {
        (65 + v) as char
    } else if v < 52 {
        (97 + (v - 26)) as char
    } else if v < 62 {
        (48 + (v - 52)) as char
    } else if v == 62 {
        '+'
    } else {
        '/'
    }
}

/// Standard base64 (RFC 4648, with `=` padding) of a byte sequence: every
/// group of three bytes becomes four symbols; a final group of one or two
/// bytes is padded to four symbols.
pub open spec fn base64_standard(b: Seq<u8>) -> Seq<char>
    decreases b.len(),
{
    let b0 = b[0] as int;
    if b.len() == 0 {
        Seq::empty()
    } else if b.len() == 1 {
        seq![base64_symbol(b0 / 4), base64_symbol((b0 % 4) * 16), '=', '=']
    } else if b.len() == 2 {
        let b1 = b[1] as int;
        seq![
            base64_symbol(b0 / 4),
            base64_symbol((b0 % 4) * 16 + b1 / 16),
            base64_symbol((b1 % 16) * 4),
            '=',
        ]
    } else {
        let b1 = b[1] as int;
        let b2 = b[2] as int;
        seq![
            base64_symbol(b0 / 4),
            base64_symbol((b0 % 4) * 16 + b1 / 16),
            base64_symbol((b1 % 16) * 4 + b2 / 64),
            base64_symbol(b2 % 64),
        ] + base64_standard(b.skip(3))
    }
}

/// What the standard base64 engine decodes `text` to; `None` where it refuses
/// the text.
pub uninterp spec fn base64_standard_decoded(text: Seq<char>) -> Option<Seq<u8>>;

/// The SHA-256 digest of `data`.
pub uninterp spec fn sha256_digest(data: Seq<u8>) -> Seq<u8>;

/// The AES-256-GCM ciphertext (with its tag appended) of `plaintext` under
/// `key` and `nonce`, without associated data.
pub uninterp spec fn aes256gcm_sealed(key: Seq<u8>, nonce: Seq<u8>, plaintext: Seq<u8>) -> Seq<u8>;

/// The plaintext that AES-256-GCM recovers from `ciphertext` under `key` and
/// `nonce`; `None` where the tag does not verify.
pub uninterp spec fn aes256gcm_opened(key: Seq<u8>, nonce: Seq<u8>, ciphertext: Seq<u8>) -> Option<
    Seq<u8>,
>;

/// `base64::engine::general_purpose::STANDARD.encode`: the standard padded
/// base64 text of `bytes`, which the contract states in full. Claimed besides:
/// the same engine decodes that text back to `bytes` (its padding is canonical).
#[verifier::external_body]
pub(crate) fn base64_encode(bytes: &[u8]) -> (r: String)
    ensures
        r@ == base64_standard(bytes@),
        base64_standard_decoded(r@) == Some(bytes@),
{
    BASE64.encode(bytes)
}

/// `base64::engine::general_purpose::STANDARD.decode`: the bytes that `text`
/// decodes to, or the text of the decode error. Claimed: the result is the named
/// decoding. The error's text is not stated.
#[verifier::external_body]
pub(crate) fn base64_decode(text: &str) -> (r: Result<Vec<u8>, String>)
    ensures
        r is Ok <==> base64_standard_decoded(text@) is Some,
        r matches Ok(b) ==> base64_standard_decoded(text@) == Some(b@),
{
    BASE64.decode(text).map_err(|e| e.to_string())
}

/// `sha2::Sha256::digest`: the 32-byte SHA-256 digest of `data`.
#[verifier::external_body]
pub(crate) fn sha256(data: &[u8]) -> (r: [u8; 32])
    ensures
        r@ == sha256_digest(data@),
{
    Sha256::digest(data).into()
}

/// `Aead::encrypt` of `aes_gcm::Aes256Gcm` keyed with `key` (a 32-byte key is
/// always accepted): the sealed ciphertext, which is the encrypted plaintext
/// followed by the 16-byte tag; it fails only for a plaintext longer than
/// `P_MAX` bytes, with the text of `aead::Error`. Claimed besides: decryption
/// under the same key and nonce opens that ciphertext to the plaintext.
#[verifier::external_body]
pub(crate) fn aes256gcm_encrypt(key: &[u8; 32], nonce: &[u8; 12], plaintext: &[u8]) -> (r: Result<
    Vec<u8>,
    String,
>)
    ensures
        r is Ok <==> plaintext@.len() <= aes_gcm_max_plaintext(),
        r matches Ok(c) ==> c@ == aes256gcm_sealed(key@, nonce@, plaintext@),
        r matches Ok(c) ==> c@.len() == plaintext@.len() + 16,
        r matches Ok(c) ==> aes256gcm_opened(key@, nonce@, c@) == Some(plaintext@),
{
    Aes256Gcm::new(key.into()).encrypt(Nonce::from_slice(nonce), plaintext).map_err(|e| e.to_string())
}

/// `Aead::decrypt` of `aes_gcm::Aes256Gcm` keyed with `key`, with a 12-byte
/// nonce (`Nonce::from_slice` panics on any other length). Claimed: the result
/// is the named opening.
#[verifier::external_body]
pub(crate) fn aes256gcm_decrypt(key: &[u8; 32], nonce: &[u8], ciphertext: &[u8]) -> (r: Result<
    Vec<u8>,
    String,
>)
    requires
        nonce@.len() == 12,
    ensures
        match r {
            Ok(p) => aes256gcm_opened(key@, nonce@, ciphertext@) == Some(p@),
            Err(_) => aes256gcm_opened(key@, nonce@, ciphertext@) is None,
        },
{
    Aes256Gcm::new(key.into()).decrypt(Nonce::from_slice(nonce), ciphertext).map_err(
        |e| e.to_string(),
    )
}

/// `rand::rng().fill_bytes`: twelve bytes from the thread-local random
/// generator. Nothing is stated of their values.
#[verifier::external_body]
pub(crate) fn random_nonce() -> (r: [u8; 12]) {
    let mut n = [0u8; 12];
    rand::rng().fill_bytes(&mut n);
    n
}

/// A decimal digit.
pub open spec fn is_digit(c: char) -> bool {
    '0' <= c && c <= '9'
}

/// Every character of `s` is a decimal digit.
pub open spec fn all_digits(s: Seq<char>) -> bool {
    forall|i: int| 0 <= i < s.len() ==> is_digit(#[trigger] s[i])
}

/// `s` is `<year>-MM-DDTHH:MM:SS<fraction>+00:00` with a year of `y`
/// characters and a fraction of `f` characters: the year is four digits, or
/// (outside 0..=9999) a sign and at least four digits; the fraction is empty,
/// or `.` and three, six or nine digits.
pub open spec fn rfc3339_utc_layout(s: Seq<char>, y: int, f: int) -> bool {
    let n = s.len();
    &&& n == y + 15 + f + 6
    &&& (y == 4 && all_digits(s.take(4))) || (y >= 5 && (s[0] == '+' || s[0] == '-') && all_digits(
        s.subrange(1, y),
    ))
    &&& s[y] == '-' && is_digit(s[y + 1]) && is_digit(s[y + 2])
    &&& s[y + 3] == '-' && is_digit(s[y + 4]) && is_digit(s[y + 5])
    &&& s[y + 6] == 'T' && is_digit(s[y + 7]) && is_digit(s[y + 8])
    &&& s[y + 9] == ':' && is_digit(s[y + 10]) && is_digit(s[y + 11])
    &&& s[y + 12] == ':' && is_digit(s[y + 13]) && is_digit(s[y + 14])
    &&& (f == 0 || ((f == 4 || f == 7 || f == 10) && s[y + 15] == '.' && all_digits(
        s.subrange(y + 16, y + 15 + f),
    )))
    &&& s[n - 6] == '+' && s[n - 5] == '0' && s[n - 4] == '0'
    &&& s[n - 3] == ':' && s[n - 2] == '0' && s[n - 1] == '0'
}

/// RFC 3339 text of a UTC time as chrono writes it (`to_rfc3339`).
pub open spec fn is_rfc3339_utc_text(s: Seq<char>) -> bool {
    exists|y: int, f: int| #[trigger] rfc3339_utc_layout(s, y, f)
}

/// `chrono::Utc::now().to_rfc3339()`: the current time as RFC 3339 text, in
/// the layout that chrono's `write_rfc3339` gives a UTC time (offset
/// `+00:00`). Which time it names depends on the clock and is not stated.
#[verifier::external_body]
pub(crate) fn now_rfc3339() -> (r: String)
    ensures
        is_rfc3339_utc_text(r@),
{
    chrono::Utc::now().to_rfc3339()
}

/// A lowercase hexadecimal digit.
pub open spec fn is_lower_hex(c: char) -> bool {
    ('0' <= c && c <= '9') || ('a' <= c && c <= 'f')
}

/// The hyphenated lowercase text of a random (version 4, RFC 4122 variant)
/// UUID: `xxxxxxxx-xxxx-4xxx-vxxx-xxxxxxxxxxxx`, where each `x` is a lowercase
/// hex digit and `v` is one of `8`, `9`, `a`, `b`.
pub open spec fn is_uuid_v4_text(s: Seq<char>) -> bool {
    &&& s.len() == 36
    &&& forall|i: int|
        0 <= i < 36 ==> if i == 8 || i == 13 || i == 18 || i == 23 {
            #[trigger] s[i] == '-'
        } else {
            is_lower_hex(s[i])
        }
    &&& s[14] == '4'
    &&& (s[19] == '8' || s[19] == '9' || s[19] == 'a' || s[19] == 'b')
}

/// `uuid::Uuid::new_v4().to_string()`: a random version-4 UUID in its
/// hyphenated lowercase form. Its random digits are not stated.
#[verifier::external_body]
pub(crate) fn new_uuid_v4() -> (r: String)
    ensures
        is_uuid_v4_text(r@),
{
    uuid::Uuid::new_v4().to_string()
}

} // verus!
