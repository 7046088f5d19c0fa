use vstd::prelude::*;

use crate::crypto::ed25519::{ed25519_accepts, ed25519_decodes, public_key_decodes, verify_with_public};
use crate::crypto::error::CryptoError;
use crate::crypto::hash::bytes32_equal;
use crate::crypto::keys::signature::Signature;

verus! {

/// A compressed Ed25519 public key.
#[derive(Clone, Copy, Debug)]
pub struct PublicKey(pub [u8; 32]);

impl PublicKey {
    /// The public key with these bytes, if they decompress to a curve point.
    pub fn from_bytes(bytes: &[u8; 32]) -> (r: Result<PublicKey, CryptoError>)
        ensures
            ed25519_decodes(bytes@) ==> (r matches Ok(k) && k.0@ == bytes@),
            !ed25519_decodes(bytes@) ==> r == Err::<PublicKey, CryptoError>(
                CryptoError::InvalidPublicKeyBytes,
            ),
    {
        if public_key_decodes(bytes) {
            Ok(PublicKey(*bytes))
        } else {
            Err(CryptoError::InvalidPublicKeyBytes)
        }
    }

    /// The 32 bytes of the key.
    pub fn as_bytes(&self) -> (r: [u8; 32])
        ensures
            r@ == self.0@,
    {
        self.0
    }

    /// Checks `signature` over the digest `hash` against this key.
    pub fn verify(&self, hash: &crate::crypto::hash::Hash, signature: &Signature) -> (r: Result<(), CryptoError>)
        ensures
            ed25519_accepts(self.0@, hash.0@, signature.0@) ==> r is Ok,
            !ed25519_accepts(self.0@, hash.0@, signature.0@) ==> r == Err::<(), CryptoError>(
                CryptoError::VerificationFailed,
            ),
    {
        if verify_with_public(&self.0, &hash.0, &signature.0) {
            Ok(())
        } else {
            Err(CryptoError::VerificationFailed)
        }
    }
}

impl PartialEq for PublicKey {
    fn eq(&self, other: &Self) -> (r: bool) {
        bytes32_equal(&self.0, &other.0)
    }
}

impl Eq for PublicKey {}

impl vstd::std_specs::cmp::PartialEqSpecImpl for PublicKey {
    open spec fn obeys_eq_spec() -> bool {
        true
    }

    open spec fn eq_spec(&self, other: &Self) -> bool {
        self.0@ == other.0@
    }
}

} // verus!
