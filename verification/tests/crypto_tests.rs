use blockchain_core::crypto::{Address, CryptoError, Keypair, PublicKey, Signature};

#[test]
fn seed_roundtrip_and_deterministic_public_key() {
    let seed = [90u8; 32];
    let k1 = Keypair::from_seed(&seed);
    let k2 = Keypair::from_seed(&seed);
    assert_eq!(k1.to_seed(), seed);
    assert_eq!(k1.public_key(), k2.public_key());
    assert_ne!(k1.public_key(), Keypair::from_seed(&[91u8; 32]).public_key());
}

#[test]
fn signatures_verify_under_the_signing_key_only() {
    let k = Keypair::from_seed(&[92u8; 32]);
    let other = Keypair::from_seed(&[93u8; 32]);
    let msg = blockchain_core::crypto::hash::Hash::digest(b"message");
    let sig = k.sign(&msg);
    assert_eq!(k.public_key().verify(&msg, &sig), Ok(()));
    assert_eq!(
        other.public_key().verify(&msg, &sig),
        Err(CryptoError::VerificationFailed)
    );
    let other_msg = blockchain_core::crypto::hash::Hash::digest(b"other");
    assert_eq!(
        k.public_key().verify(&other_msg, &sig),
        Err(CryptoError::VerificationFailed)
    );
}

#[test]
fn public_key_bytes_roundtrip() {
    let pk = Keypair::from_seed(&[94u8; 32]).public_key();
    assert_eq!(PublicKey::from_bytes(&pk.as_bytes()), Ok(pk));
}

#[test]
fn some_byte_strings_are_not_public_keys() {
    let mut refused = 0;
    for b in 0..=255u8 {
        let mut bytes = [0u8; 32];
        bytes[0] = b;
        bytes[1] = 0x5a;
        if PublicKey::from_bytes(&bytes) == Err(CryptoError::InvalidPublicKeyBytes) {
            refused += 1;
        }
    }
    assert!(refused > 0);
}

#[test]
fn signature_bytes_roundtrip() {
    let mut bytes = [0u8; 64];
    bytes[63] = 9;
    assert_eq!(Signature::from_bytes(&bytes).to_bytes(), bytes);
}

#[test]
fn address_wraps_its_key() {
    let pk = Keypair::from_seed(&[95u8; 32]).public_key();
    let a = Address::new(pk);
    assert_eq!(*a.public_key(), pk);
    assert_eq!(a, Address::from(pk));
    assert_eq!(a.to_hex().len(), 64);
}

#[test]
fn hash_renders_as_hex() {
    let mut bytes = [0u8; 32];
    bytes[0] = 0xab;
    bytes[31] = 0x01;
    let h = blockchain_core::crypto::hash::Hash(bytes);
    let text = h.to_hex();
    assert!(text.starts_with("ab00"));
    assert!(text.ends_with("0001"));
    assert_eq!(blockchain_core::crypto::hash::Hash::default().to_hex(), "0".repeat(64));
    assert_eq!(h.as_bytes(), &bytes);
}

#[test]
fn digest_is_sha256() {
    let h = blockchain_core::crypto::hash::Hash::digest(b"abc");
    assert_eq!(
        h.to_hex(),
        "ba7816bf8f01cfea414140de5dae2223b00361a396177a9cb410ff61f20015ad"
    );
}

#[test]
fn generated_keys_differ() {
    let a = Keypair::generate();
    let b = Keypair::generate();
    assert_ne!(a.to_seed(), b.to_seed());
}

#[test]
fn crypto_error_messages() {
    assert_eq!(
        CryptoError::VerificationFailed.message(),
        "Signature verification failed: invalid signature or tampered data"
    );
    assert_eq!(
        CryptoError::HexDecodeError("zz".to_string()).message(),
        "Hex decoding failure: zz"
    );
}
