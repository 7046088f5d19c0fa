use vstd::prelude::*;

use crate::crypto::ed25519::{
    ed25519_accepts, ed25519_public_of, ed25519_signature_of, public_of_seed, random_seed,
    sign_with_seed,
};

use crate::crypto::keys::public_key::PublicKey;
use crate::crypto::keys::signature::Signature;

verus! {

/// An Ed25519 signing key: its secret seed and the public key derived from it.
pub struct Keypair {
    seed: [u8; 32],
    public: [u8; 32],
}

impl Keypair {
    #[verifier::type_invariant]
    spec fn public_matches_seed(self) -> bool {
        self.public@ == ed25519_public_of(self.seed@)
    }

    /// The secret seed of the key.
    pub closed spec fn secret(&self) -> Seq<u8> {
        self.seed@
    }

    /// The public key of this key.
    pub closed spec fn verifying_key(&self) -> PublicKey {
        PublicKey(self.public)
    }

    /// A key with a fresh secret from the operating system's entropy.
    pub fn generate() -> (r: Keypair)
        ensures
            r.verifying_key().0@ == ed25519_public_of(r.secret()),
    {
        let seed = random_seed();
        let r = Keypair::from_seed(&seed);
        proof {
            use_type_invariant(&r);
        }
        r
    }

    /// The key with secret `seed`.
    pub fn from_seed(seed: &[u8; 32]) -> (r: Keypair)
        ensures
            r.secret() == seed@,
    {
        let public = public_of_seed(seed);
        Keypair { seed: *seed, public }
    }

    /// The secret seed.
    pub fn to_seed(&self) -> (r: [u8; 32])
        ensures
            r@ == self.secret(),
    {
        self.seed
    }

    /// The public key of this key.
    pub fn public_key(&self) -> (r: PublicKey)
        ensures
            r == self.verifying_key(),
            r.0@ == ed25519_public_of(self.secret()),
    {
        proof {
            use_type_invariant(self);
        }
        PublicKey(self.public)
    }

    /// The signature of the digest `hash` under this key; it verifies under
    /// this key's public key.
    pub fn sign(&self, hash: &crate::crypto::hash::Hash) -> (r: Signature)
        ensures
            r.0@ == ed25519_signature_of(self.secret(), hash.0@),
            ed25519_accepts(ed25519_public_of(self.secret()), hash.0@, r.0@),
    {
        Signature(sign_with_seed(&self.seed, &hash.0))
    }
}

} // verus!
