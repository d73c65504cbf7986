//! The cryptographic primitives the certificate and licence chains rest on:
//! SHA-256, hex and base64 text, and Ed25519 keys and signatures. Each is a
//! call into the crate that implements it; what those calls return is
//! stated here, by a short specification where the encoding is simple, and
//! by name where it is a cryptographic function.

use vstd::prelude::*;

use base64::Engine;
use ed25519_dalek::{Signer, Verifier};
use sha2::Digest;

verus! {

/// SHA-256 of a byte string.
pub uninterp spec fn sha256_of(data: Seq<u8>) -> Seq<u8>;

/// Ed25519 public key of a 32-byte secret seed.
pub uninterp spec fn ed_public_of(seed: Seq<u8>) -> Seq<u8>;

/// Ed25519 signature of a message under a secret seed (deterministic).
pub uninterp spec fn ed_sign_of(seed: Seq<u8>, msg: Seq<u8>) -> Seq<u8>;

/// The 32 bytes decompress to a curve point, i.e. form a usable public key.
pub uninterp spec fn ed_key_valid(pk: Seq<u8>) -> bool;

/// The signature verifies for the message under the public key.
pub uninterp spec fn ed_verify_ok(pk: Seq<u8>, msg: Seq<u8>, sig: Seq<u8>) -> bool;

/// What unpadded standard base64 decodes the text to, if it decodes.
pub uninterp spec fn b64_decode_of(text: Seq<char>) -> Option<Seq<u8>>;

/// The decoder's explanation of why the text is not unpadded standard
/// base64 (the offending symbol and offset, or the length).
pub uninterp spec fn b64_error_of(text: Seq<char>) -> Seq<char>;

/// The library's explanation of why 32 bytes are not a public key.
pub uninterp spec fn ed_key_error_of(pk: Seq<u8>) -> Seq<char>;

/// The library's explanation of why a signature does not verify for a
/// message under a public key.
pub uninterp spec fn ed_verify_error_of(pk: Seq<u8>, msg: Seq<u8>, sig: Seq<u8>) -> Seq<char>;

/// The lowercase hex digit for a value below sixteen.
pub open spec fn hex_digit(v: int) -> char {
    if v == 0 { '0' } else if v == 1 { '1' } else if v == 2 { '2' } else if v == 3 { '3' }
    else if v == 4 { '4' } else if v == 5 { '5' } else if v == 6 { '6' } else if v == 7 { '7' }
    else if v == 8 { '8' } else if v == 9 { '9' } else if v == 10 { 'a' } else if v == 11 { 'b' }
    else if v == 12 { 'c' } else if v == 13 { 'd' } else if v == 14 { 'e' } else { 'f' }
}

/// Lowercase hex: two digits per byte, high nibble first.
pub open spec fn hex_spec(d: Seq<u8>) -> Seq<char>
    decreases d.len(),
{
    if d.len() == 0 {
        Seq::empty()
    } else {
        hex_spec(d.drop_last()) + seq![hex_digit(d.last() as int / 16), hex_digit(d.last() as int % 16)]
    }
}

/// The standard base64 alphabet.
pub open spec fn b64_char(v: int) -> char {
    if v < 26 {
        ((65 + v) as u32) as char
    } else if v < 52 {
        ((97 + v - 26) as u32) as char
    } else if v < 62 {
        ((48 + v - 52) as u32) as char
    } else if v == 62 {
        '+'
    } else {
        '/'
    }
}

/// Standard base64 without padding: each three bytes become four
/// characters; a final one or two bytes become two or three.
pub open spec fn b64_spec(d: Seq<u8>) -> Seq<char>
    decreases d.len(),
{
    if d.len() >= 3 {
        let (a, b, c) = (d[0] as int, d[1] as int, d[2] as int);
        seq![b64_char(a / 4), b64_char((a % 4) * 16 + b / 16), b64_char((b % 16) * 4 + c / 64), b64_char(c % 64)]
            + b64_spec(d.skip(3))
    } else if d.len() == 2 {
        let (a, b) = (d[0] as int, d[1] as int);
        seq![b64_char(a / 4), b64_char((a % 4) * 16 + b / 16), b64_char((b % 16) * 4)]
    } else if d.len() == 1 {
        let a = d[0] as int;
        seq![b64_char(a / 4), b64_char((a % 4) * 16)]
    } else {
        Seq::empty()
    }
}

/// SHA-256 digest (`sha2::Sha256::digest`): 32 bytes, a function of the
/// input alone.
#[verifier::external_body]
pub(crate) fn sha256(data: &[u8]) -> (r: Vec<u8>)
    ensures
        r@ == sha256_of(data@),
        r@.len() == 32,
{
    sha2::Sha256::digest(data).to_vec()
}

/// Lowercase hex text (`hex::encode`): two digits per byte.
#[verifier::external_body]
pub(crate) fn hex_encode(data: &[u8]) -> (r: String)
    ensures
        r@ == hex_spec(data@),
{
    hex::encode(data)
}

/// Unpadded standard base64 text (`base64` engine `STANDARD_NO_PAD`,
/// `encode`). Decoding the text with the same engine gives the input back.
#[verifier::external_body]
pub(crate) fn b64_encode(data: &[u8]) -> (r: String)
    requires
        (data@.len() / 3) * 4 + 3 <= usize::MAX,
    ensures
        r@ == b64_spec(data@),
        b64_decode_of(r@) == Some(data@),
{
    base64::engine::general_purpose::STANDARD_NO_PAD.encode(data)
}

/// Decode unpadded standard base64 (`base64` engine `STANDARD_NO_PAD`,
/// `decode`). That engine refuses padding and stray trailing bits, so it
/// accepts exactly the texts that encoding produces, and gives back the
/// bytes they encode. The error is the text of the decoder's `DecodeError`,
/// which depends on the input alone.
#[verifier::external_body]
pub(crate) fn b64_decode(text: &str) -> (r: Result<Vec<u8>, String>)
    ensures
        match b64_decode_of(text@) {
            Some(b) => r matches Ok(v) && v@ == b,
            None => r matches Err(m) && m@ == b64_error_of(text@),
        },
        r matches Ok(v) ==> text@ == b64_spec(v@),
        r is Ok || forall|d: Seq<u8>| text@ != #[trigger] b64_spec(d),
{
    base64::engine::general_purpose::STANDARD_NO_PAD.decode(text).map_err(|e| e.to_string())
}

/// The public key of a secret seed (`ed25519_dalek::SigningKey::from_bytes`,
/// `verifying_key`, `to_bytes`). A key derived this way is always usable.
#[verifier::external_body]
pub(crate) fn ed25519_public_key(seed: &[u8; 32]) -> (r: [u8; 32])
    ensures
        r@ == ed_public_of(seed@),
        ed_key_valid(r@),
{
    ed25519_dalek::SigningKey::from_bytes(seed).verifying_key().to_bytes()
}

/// Sign a message (`ed25519_dalek::SigningKey::from_bytes`, `Signer::sign`,
/// `Signature::to_bytes`). Ed25519 signing is deterministic, and the
/// signature verifies under the seed's own public key.
#[verifier::external_body]
pub(crate) fn ed25519_sign(seed: &[u8; 32], msg: &[u8]) -> (r: [u8; 64])
    ensures
        r@ == ed_sign_of(seed@, msg@),
        ed_verify_ok(ed_public_of(seed@), msg@, r@),
{
    ed25519_dalek::SigningKey::from_bytes(seed).sign(msg).to_bytes()
}

/// Check that 32 bytes form a public key (`ed25519_dalek::VerifyingKey::from_bytes`);
/// the error is the text of the library's `SignatureError`, which depends
/// on the bytes alone.
#[verifier::external_body]
pub(crate) fn ed25519_check_key(pk: &[u8; 32]) -> (r: Result<(), String>)
    ensures
        r is Ok == ed_key_valid(pk@),
        r matches Err(m) ==> m@ == ed_key_error_of(pk@),
{
    ed25519_dalek::VerifyingKey::from_bytes(pk).map(|_| ()).map_err(|e| e.to_string())
}

/// Verify a signature (`ed25519_dalek::VerifyingKey::from_bytes`,
/// `Signature::from_bytes`, `Verifier::verify`); the error is the text of
/// the library's `SignatureError`, which depends on the key, the message
/// and the signature alone.
#[verifier::external_body]
pub(crate) fn ed25519_verify(pk: &[u8; 32], msg: &[u8], sig: &[u8; 64]) -> (r: Result<(), String>)
    ensures
        r is Ok == ed_verify_ok(pk@, msg@, sig@),
        r matches Err(m) ==> m@ == ed_verify_error_of(pk@, msg@, sig@),
{
    match ed25519_dalek::VerifyingKey::from_bytes(pk) {
        Ok(k) => k.verify(msg, &ed25519_dalek::Signature::from_bytes(sig)).map_err(|e| e.to_string()),
        Err(e) => Err(e.to_string()),
    }
}

/// A fresh secret seed from the operating system's generator
/// (`ed25519_dalek::SigningKey::generate` with `rand_core::OsRng`). Nothing
/// is promised of its value.
#[verifier::external_body]
pub(crate) fn random_seed() -> (r: [u8; 32]) {
    ed25519_dalek::SigningKey::generate(&mut rand_core::OsRng).to_bytes()
}

} // verus!
