//! Hashes, signatures and hexadecimal text.

use ed25519_dalek::Signer;
use sha2::Digest;
use vstd::prelude::*;

verus! {

/// SHA-256 of a byte string.
pub uninterp spec fn sha256(data: Seq<u8>) -> Seq<u8>;

/// SHA-512 of a byte string.
pub uninterp spec fn sha512(data: Seq<u8>) -> Seq<u8>;

/// The Ed25519 public key that belongs to a 32-byte secret.
pub uninterp spec fn ed25519_public_key(secret: Seq<u8>) -> Seq<u8>;

/// The Ed25519 signature of a message under a 32-byte secret.
pub uninterp spec fn ed25519_signature(secret: Seq<u8>, message: Seq<u8>) -> Seq<u8>;

/// What is wrong with 32 bytes read as an Ed25519 public key; `None` for a
/// point on the curve.
pub uninterp spec fn ed25519_key_error(key: Seq<u8>) -> Option<Seq<char>>;

/// Whether a signature is valid for a message under a public key, by the
/// strict rules.
pub uninterp spec fn ed25519_accepts(key: Seq<u8>, message: Seq<u8>, signature: Seq<u8>) -> bool;

/// How the neutral point of the curve is written.
pub open spec fn neutral_point() -> Seq<u8> {
    Seq::new(
        32,
        |i: int|
            if i == 0 {
                1u8
            } else {
                0u8
            },
    )
}

/// Whether a signature begins with another point than the neutral one. Strict
/// verification turns down any that begins with that point.
pub open spec fn ordinary(signature: Seq<u8>) -> bool {
    signature.len() == 64 && signature.subrange(0, 32) != neutral_point()
}

/// One hexadecimal digit, in lower case.
pub open spec fn hex_digit(n: int) -> char {
    if n < 10 {
        (('0' as int) + n) as char
    } else {
        (('a' as int) + n - 10) as char
    }
}

/// Two lower-case hexadecimal digits for each byte, the high half first.
pub open spec fn hex_text(data: Seq<u8>) -> Seq<char> {
    Seq::new(
        2 * data.len(),
        |i: int|
            hex_digit(
                if i % 2 == 0 {
                    data[i / 2] as int / 16
                } else {
                    data[i / 2] as int % 16
                },
            ),
    )
}

/// Calls `sha2::Sha256::digest`. Trusted: the digest depends on the bytes alone.
#[verifier::external_body]
pub(crate) fn sha256_digest(data: &[u8]) -> (digest: [u8; 32])
    ensures
        digest@ == sha256(data@),
{
    sha2::Sha256::digest(data).into()
}

/// Calls `sha2::Sha512::digest`. Trusted: the digest depends on the bytes alone.
#[verifier::external_body]
pub(crate) fn sha512_digest(data: &[u8]) -> (digest: [u8; 64])
    ensures
        digest@ == sha512(data@),
{
    sha2::Sha512::digest(data).into()
}

/// Calls `ed25519_dalek::SigningKey::verifying_key` on the key made from the
/// secret. Trusted: the public key depends on the secret alone.
#[verifier::external_body]
pub(crate) fn public_key_of(secret: &[u8; 32]) -> (key: [u8; 32])
    ensures
        key@ == ed25519_public_key(secret@),
{
    ed25519_dalek::SigningKey::from_bytes(secret).verifying_key().to_bytes()
}

/// Calls `ed25519_dalek::Signer::sign` with the key made from the secret.
/// Trusted: Ed25519 draws no randomness, so the signature depends on the secret
/// and the message alone. The public key of the secret is a point on the curve,
/// and strict verification under it takes the signature, unless the signature
/// begins with the neutral point: the one point of small order among the
/// multiples of the base point.
#[verifier::external_body]
pub(crate) fn sign_message(secret: &[u8; 32], message: &[u8]) -> (signature: [u8; 64])
    ensures
        signature@ == ed25519_signature(secret@, message@),
        ordinary(signature@) ==> ed25519_key_error(ed25519_public_key(secret@)) is None
            && ed25519_accepts(ed25519_public_key(secret@), message@, signature@),
{
    ed25519_dalek::SigningKey::from_bytes(secret).sign(message).to_bytes()
}

/// Calls `ed25519_dalek::VerifyingKey::from_bytes` and hands back the text of
/// its error. Trusted: whether the bytes are a key, and the text, depend on the
/// bytes alone.
#[verifier::external_body]
pub(crate) fn public_key_error(key: &[u8; 32]) -> (error: Option<String>)
    ensures
        (match error {
            Some(text) => Some(text@),
            None => None,
        }) == ed25519_key_error(key@),
{
    match ed25519_dalek::VerifyingKey::from_bytes(key) {
        Ok(_) => None,
        Err(e) => Some(format!("{}", e)),
    }
}

/// Calls `ed25519_dalek::VerifyingKey::verify_strict`; bytes that are no key
/// accept nothing. Trusted: the answer depends on the three byte strings alone.
#[verifier::external_body]
pub(crate) fn verify_strict(key: &[u8; 32], message: &[u8], signature: &[u8; 64]) -> (accepted:
    bool)
    ensures
        accepted == ed25519_accepts(key@, message@, signature@),
        ed25519_key_error(key@) is Some ==> !accepted,
{
    match ed25519_dalek::VerifyingKey::from_bytes(key) {
        Ok(k) => k.verify_strict(message, &ed25519_dalek::Signature::from_bytes(signature)).is_ok(),
        Err(_) => false,
    }
}

/// Calls `hex::encode`. Trusted: two lower-case digits for each byte.
#[verifier::external_body]
pub(crate) fn hex_encode(data: &[u8]) -> (text: String)
    ensures
        text@ == hex_text(data@),
{
    hex::encode(data)
}

} // verus!
