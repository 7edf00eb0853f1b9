//! The cryptographic primitives the audit chain and node identity rest on:
//! SHA-256 (sha2), Ed25519 (ed25519-dalek) and hexadecimal text (hex).
use vstd::prelude::*;
use ed25519_dalek::Signer;
use ed25519_dalek::Verifier;
use sha2::Digest;
use crate::text;

verus! {

/// The SHA-256 digest of a byte string.
pub uninterp spec fn sha256_digest(data: Seq<u8>) -> Seq<u8>;

/// The Ed25519 public key (compressed point bytes) derived from a 32-byte secret key.
pub uninterp spec fn ed25519_public_key(secret: Seq<u8>) -> Seq<u8>;

/// The Ed25519 signature that a 32-byte secret key makes over a message.
pub uninterp spec fn ed25519_signature(secret: Seq<u8>, message: Seq<u8>) -> Seq<u8>;

/// Whether a 64-byte Ed25519 signature over a message verifies under a 32-byte public key.
pub uninterp spec fn ed25519_accepts(public: Seq<u8>, message: Seq<u8>, signature: Seq<u8>) -> bool;

/// Calls `<sha2::Sha256 as Digest>::digest`. Claimed: the result is the digest named
/// `sha256_digest` of the input, 32 bytes long (SHA-256's output size).
#[verifier::external_body]
pub(crate) fn sha256(data: &[u8]) -> (digest: Vec<u8>)
    ensures
        digest@ == sha256_digest(data@),
        digest@.len() == 32,
{
    sha2::Sha256::digest(data).to_vec()
}

/// Calls `ed25519_dalek::SigningKey::from_bytes` and `SigningKey::verifying_key`, returning
/// the key's 32 bytes (`VerifyingKey::to_bytes`). Claimed: the result is the public key named
/// `ed25519_public_key` of the secret key, 32 bytes long.
#[verifier::external_body]
pub(crate) fn ed25519_public_key_of(secret: &[u8; 32]) -> (public: Vec<u8>)
    ensures
        public@ == ed25519_public_key(secret@),
        public@.len() == 32,
{
    ed25519_dalek::SigningKey::from_bytes(secret).verifying_key().to_bytes().to_vec()
}

/// Calls `ed25519_dalek::SigningKey::from_bytes` and `Signer::sign`, returning the signature's
/// 64 bytes (`Signature::to_bytes`). Claimed: the result is the signature named
/// `ed25519_signature` of the secret key and message, 64 bytes long, and (Ed25519 correctness,
/// RFC 8032) it verifies under the public key derived from the same secret key.
#[verifier::external_body]
pub(crate) fn ed25519_sign(secret: &[u8; 32], message: &[u8]) -> (signature: Vec<u8>)
    ensures
        signature@ == ed25519_signature(secret@, message@),
        signature@.len() == 64,
        ed25519_accepts(ed25519_public_key(secret@), message@, signature@),
{
    ed25519_dalek::SigningKey::from_bytes(secret).sign(message).to_bytes().to_vec()
}

/// Calls `ed25519_dalek::VerifyingKey::from_bytes`, `Signature::from_slice` and
/// `Verifier::verify`; a public key that does not decode gives `false`. Claimed: the result is
/// the verdict named `ed25519_accepts`. `from_slice` fails only on a length other than 64,
/// which `requires` leaves out.
#[verifier::external_body]
pub(crate) fn ed25519_verify(public: &[u8], message: &[u8], signature: &[u8]) -> (ok: bool)
    requires
        public@.len() == 32,
        signature@.len() == 64,
    ensures
        ok == ed25519_accepts(public@, message@, signature@),
{
    let mut key = [0u8; 32];
    key.copy_from_slice(public);
    let signature = ed25519_dalek::Signature::from_slice(signature).unwrap();
    match ed25519_dalek::VerifyingKey::from_bytes(&key) {
        Ok(key) => key.verify(message, &signature).is_ok(),
        Err(_) => false,
    }
}

/// Calls `hex::encode`. Claimed (from the crate's source): two lower-case digits per byte,
/// high nibble first.
#[verifier::external_body]
pub(crate) fn hex_encode(data: &[u8]) -> (text: String)
    ensures
        text@ == text::lower_hex(data@),
{
    hex::encode(data)
}

/// Calls `hex::decode` on the text's bytes; its error becomes `None`. Claimed (from the crate's
/// source): success exactly on an even number of hexadecimal digits of either case, each pair
/// giving one byte, high nibble first.
#[verifier::external_body]
pub(crate) fn hex_decode(text: &str) -> (bytes: Option<Vec<u8>>)
    ensures
        match bytes {
            Some(b) => text::hex_decoded(vstd::utf8::encode_utf8(text@)) == Some(b@),
            None => text::hex_decoded(vstd::utf8::encode_utf8(text@)) is None,
        },
{
    hex::decode(text).ok()
}

} // verus!
