//! The Ed25519 operations of `ed25519_dalek` that the keys rest on. Each
//! result is named by an uninterpreted function of the plain bytes that go
//! in; nothing here states what those bytes are.

use vstd::prelude::*;
use ed25519_dalek::{Signer, SigningKey, Verifier, VerifyingKey};
use rand::rngs::OsRng;

verus! {

/// The compressed public key of the signing key with secret `seed`.
pub uninterp spec fn ed25519_public_of(seed: Seq<u8>) -> Seq<u8>;

/// The signature that the signing key with secret `seed` gives `message`.
pub uninterp spec fn ed25519_signature_of(seed: Seq<u8>, message: Seq<u8>) -> Seq<u8>;

/// Whether `signature` verifies for `message` under the public key `public`
/// (false where `public` is not a curve point).
pub uninterp spec fn ed25519_accepts(public: Seq<u8>, message: Seq<u8>, signature: Seq<u8>) -> bool;

/// Whether `bytes` decompress to a curve point, so that they form a public key.
pub uninterp spec fn ed25519_decodes(bytes: Seq<u8>) -> bool;

/// `SigningKey::generate` on the operating system's entropy source, then
/// `SigningKey::to_bytes`: a fresh secret seed. Nothing is claimed of it.
#[verifier::external_body]
pub(crate) fn random_seed() -> (r: [u8; 32]) {
    SigningKey::generate(&mut OsRng).to_bytes()
}

/// `SigningKey::from_bytes(seed).verifying_key().to_bytes()`: the public key
/// of the secret `seed`, named by `ed25519_public_of`.
#[verifier::external_body]
pub(crate) fn public_of_seed(seed: &[u8; 32]) -> (r: [u8; 32])
    ensures
        r@ == ed25519_public_of(seed@),
{
    SigningKey::from_bytes(seed).verifying_key().to_bytes()
}

/// `SigningKey::from_bytes(seed).sign(message).to_bytes()`: the signature of
/// `message`, named by `ed25519_signature_of`. It also claims the defining
/// property of Ed25519 that the crate documents: a signature made with a
/// signing key verifies for the same message under that key's public key.
#[verifier::external_body]
pub(crate) fn sign_with_seed(seed: &[u8; 32], message: &[u8; 32]) -> (r: [u8; 64])
    ensures
        r@ == ed25519_signature_of(seed@, message@),
        ed25519_accepts(ed25519_public_of(seed@), message@, r@),
{
    SigningKey::from_bytes(seed).sign(message).to_bytes()
}

/// `VerifyingKey::from_bytes(public)` followed by `Verifier::verify` of
/// `message` against `signature`: true exactly when both succeed, named by
/// `ed25519_accepts`.
#[verifier::external_body]
pub(crate) fn verify_with_public(public: &[u8; 32], message: &[u8; 32], signature: &[u8; 64]) -> (r: bool)
    ensures
        r == ed25519_accepts(public@, message@, signature@),
{
    match VerifyingKey::from_bytes(public) {
        Ok(key) => key.verify(message, &ed25519_dalek::Signature::from_bytes(signature)).is_ok(),
        Err(_) => false,
    }
}

/// `VerifyingKey::from_bytes(bytes).is_ok()`: whether `bytes` decompress to
/// a curve point, named by `ed25519_decodes`.
#[verifier::external_body]
pub(crate) fn public_key_decodes(bytes: &[u8; 32]) -> (r: bool)
    ensures
        r == ed25519_decodes(bytes@),
{
    VerifyingKey::from_bytes(bytes).is_ok()
}

} // verus!
