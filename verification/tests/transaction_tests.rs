use blockchain_core::crypto::{CryptoError, Keypair};
use blockchain_core::error::TransactionError;
use blockchain_core::interfaces::{Storable, Verifiable};
use blockchain_core::transaction::Transaction;

#[test]
fn zero_amount_is_refused() {
    let alice = Keypair::from_seed(&[70u8; 32]);
    let bob = Keypair::from_seed(&[71u8; 32]).public_key();
    assert_eq!(
        Transaction::new(&alice, bob, 0, 0, 1),
        Err(TransactionError::ZeroAmount)
    );
}

#[test]
fn transfer_to_oneself_is_refused() {
    let alice = Keypair::from_seed(&[72u8; 32]);
    assert_eq!(
        Transaction::new(&alice, alice.public_key(), 5, 0, 1),
        Err(TransactionError::SelfTransfer)
    );
    assert_eq!(
        Transaction::new(&alice, alice.public_key(), 0, 0, 1),
        Err(TransactionError::ZeroAmount)
    );
}

#[test]
fn new_transaction_carries_its_fields_and_verifies() {
    let alice = Keypair::from_seed(&[73u8; 32]);
    let bob = Keypair::from_seed(&[74u8; 32]).public_key();
    let tx = Transaction::new(&alice, bob, 42, 7, 3).unwrap();
    assert_eq!(*tx.sender(), alice.public_key());
    assert_eq!(*tx.receiver(), bob);
    assert_eq!(tx.amount(), 42);
    assert_eq!(tx.nonce(), 7);
    assert_eq!(tx.fee(), 3);
    assert_eq!(*tx.signature(), alice.sign(&tx.signing_hash().unwrap()));
    assert_eq!(tx.verify(), Ok(()));
    assert_eq!(Verifiable::verify(&tx), Ok(()));
}

#[test]
fn tampered_transaction_fails_verification() {
    let alice = Keypair::from_seed(&[75u8; 32]);
    let bob = Keypair::from_seed(&[76u8; 32]).public_key();
    let mut tx = Transaction::new(&alice, bob, 42, 7, 3).unwrap();
    tx.nonce = 8;
    assert_eq!(
        tx.verify(),
        Err(TransactionError::InvalidSignature(CryptoError::VerificationFailed))
    );
}

#[test]
fn signing_hash_digests_the_signed_fields() {
    let alice = Keypair::from_seed(&[77u8; 32]);
    let bob = Keypair::from_seed(&[78u8; 32]).public_key();
    let tx = Transaction::new(&alice, bob, 1, 2, 3).unwrap();
    let payload = bincode::serialize(&(alice.public_key().0, bob.0, 1u64, 2u64, 3u64)).unwrap();
    assert_eq!(payload.len(), 88);
    assert_eq!(
        tx.signing_hash().unwrap(),
        blockchain_core::crypto::hash::Hash::digest(&payload)
    );
}

#[test]
fn stored_form_and_identifier() {
    let alice = Keypair::from_seed(&[79u8; 32]);
    let bob = Keypair::from_seed(&[80u8; 32]).public_key();
    let tx = Transaction::new(&alice, bob, 0x0102, 5, 6).unwrap();
    let bytes = tx.to_bytes();
    assert_eq!(bytes.len(), 168);
    assert_eq!(&bytes[0..8], &[32, 0, 0, 0, 0, 0, 0, 0]);
    assert_eq!(&bytes[8..40], &tx.sender.0);
    assert_eq!(&bytes[40..48], &[32, 0, 0, 0, 0, 0, 0, 0]);
    assert_eq!(&bytes[48..80], &tx.receiver.0);
    assert_eq!(&bytes[80..88], &[2, 1, 0, 0, 0, 0, 0, 0]);
    assert_eq!(&bytes[88..96], &[5, 0, 0, 0, 0, 0, 0, 0]);
    assert_eq!(&bytes[96..160], &tx.signature.0[..]);
    assert_eq!(&bytes[160..168], &[6, 0, 0, 0, 0, 0, 0, 0]);
    assert_eq!(Storable::to_bytes(&tx), bytes);
    assert_eq!(tx.hash(), blockchain_core::crypto::hash::Hash::digest(&bytes));
}

#[test]
fn field_checks() {
    let alice = Keypair::from_seed(&[81u8; 32]).public_key();
    let bob = Keypair::from_seed(&[82u8; 32]).public_key();
    assert_eq!(Transaction::validate_fields(&alice, &bob, 1), Ok(()));
    assert_eq!(
        Transaction::validate_fields(&alice, &alice, 1),
        Err(TransactionError::SelfTransfer)
    );
    assert_eq!(
        Transaction::validate_fields(&alice, &bob, 0),
        Err(TransactionError::ZeroAmount)
    );
}
