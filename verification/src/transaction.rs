//! Signed value transfers between two public keys.

use vstd::prelude::*;

use crate::crypto::ed25519::{ed25519_accepts, ed25519_public_of, ed25519_signature_of};
use crate::crypto::hash::sha256_digest;
use crate::crypto::keys::keypair::Keypair;
use crate::crypto::keys::public_key::PublicKey;
use crate::crypto::keys::signature::Signature;
use crate::encoding::{push_bytes, push_u64_le, u64_le};
use crate::error::TransactionError;
use crate::interfaces::storable::Storable;
use crate::interfaces::verifiable::Verifiable;

verus! {

/// The bytes that a transaction's signature covers: both keys, then the
/// amount, nonce and fee as little-endian `u64`s.
pub open spec fn signing_preimage(sender: Seq<u8>, receiver: Seq<u8>, amount: u64, nonce: u64, fee: u64) -> Seq<u8> {
    sender + receiver + u64_le(amount) + u64_le(nonce) + u64_le(fee)
}

/// `bincode::serialize` of the signing tuple. bincode's default
/// configuration writes a tuple as its elements in order, a byte array as
/// its bytes and a `u64` as eight little-endian bytes; for this tuple its
/// size check has no limit and its writer is a `Vec`, so it cannot fail.
#[verifier::external_body]
fn serialize_signing_payload(payload: &([u8; 32], [u8; 32], u64, u64, u64)) -> (r: Result<Vec<u8>, Box<bincode::ErrorKind>>)
    ensures
        r is Ok,
        r is Ok ==> r.unwrap()@ == signing_preimage(payload.0@, payload.1@, payload.2, payload.3, payload.4),
{
    bincode::serialize(payload)
}

/// A transfer of `amount` from `sender` to `receiver`, paying `fee` to the
/// miner, with the sender's `nonce` and the sender's signature.
#[derive(Clone, Copy, Debug, PartialEq, Eq)]
pub struct Transaction {
    pub sender: PublicKey,
    pub receiver: PublicKey,
    pub amount: u64,
    pub nonce: u64,
    pub signature: Signature,
    pub fee: u64,
}

impl Transaction {
    /// The digest that the signature covers.
    pub open spec fn signing_digest(self) -> Seq<u8> {
        sha256_digest(signing_preimage(self.sender.0@, self.receiver.0@, self.amount, self.nonce, self.fee))
    }

    /// Whether the signature verifies under the sender's key.
    pub open spec fn signature_valid(self) -> bool {
        ed25519_accepts(self.sender.0@, self.signing_digest(), self.signature.0@)
    }

    /// The stored form of the transaction: each key with its 8-byte length,
    /// amount, nonce, the 64 signature bytes, fee.
    pub open spec fn encoding(self) -> Seq<u8> {
        u64_le(32) + self.sender.0@ + u64_le(32) + self.receiver.0@ + u64_le(self.amount) + u64_le(
            self.nonce,
        ) + self.signature.0@ + u64_le(self.fee)
    }

    /// The digest that identifies the transaction.
    pub open spec fn id(self) -> Seq<u8> {
        sha256_digest(self.encoding())
    }

    /// Whether this is the transfer that the key with secret `secret` signs:
    /// its key as sender, the given fields, and its signature over them.
    pub open spec fn signed_by(self, secret: Seq<u8>, receiver: PublicKey, amount: u64, nonce: u64, fee: u64) -> bool {
        &&& self.sender.0@ == ed25519_public_of(secret)
        &&& self.receiver == receiver
        &&& self.amount == amount
        &&& self.nonce == nonce
        &&& self.fee == fee
        &&& self.signature.0@ == ed25519_signature_of(secret, self.signing_digest())
    }

    /// A transfer signed by `sender_keypair`. It is refused for a zero
    /// amount, then for a receiver equal to the sender.
    pub fn new(sender_keypair: &Keypair, receiver: PublicKey, amount: u64, nonce: u64, fee: u64) -> (r: Result<Self, TransactionError>)
        ensures
            amount == 0 ==> r == Err::<Transaction, TransactionError>(TransactionError::ZeroAmount),
            amount != 0 && ed25519_public_of(sender_keypair.secret()) == receiver.0@ ==> r == Err::<
                Transaction,
                TransactionError,
            >(TransactionError::SelfTransfer),
            amount != 0 && ed25519_public_of(sender_keypair.secret()) != receiver.0@ ==> (r matches Ok(
                tx,
            ) && tx.signed_by(sender_keypair.secret(), receiver, amount, nonce, fee)),
            r matches Ok(tx) ==> tx.signature_valid(),
    {
        let sender = sender_keypair.public_key();
        match Self::validate_fields(&sender, &receiver, amount) {
            Ok(()) => {},
            Err(e) => {
                return Err(e);
            },
        }
        let mut tx = Transaction {
            sender,
            receiver,
            amount,
            nonce,
            fee,
            signature: Signature::from_bytes(&[0u8; 64]),
        };
        let signing_hash = match tx.signing_hash() {
            Ok(h) => h,
            Err(e) => {
                return Err(e);
            },
        };
        tx.signature = sender_keypair.sign(&signing_hash);
        Ok(tx)
    }

    /// The signed fields as one tuple.
    fn signing_payload(sender: &PublicKey, receiver: &PublicKey, amount: u64, nonce: u64, fee: u64) -> (r: ([u8; 32], [u8; 32], u64, u64, u64))
        ensures
            r.0@ == sender.0@,
            r.1@ == receiver.0@,
            r.2 == amount,
            r.3 == nonce,
            r.4 == fee,
    {
        (sender.as_bytes(), receiver.as_bytes(), amount, nonce, fee)
    }

    /// The digest that the signature covers.
    pub fn signing_hash(&self) -> (r: Result<crate::crypto::hash::Hash, TransactionError>)
        ensures
            r matches Ok(h) && h.0@ == self.signing_digest(),
    {
        let payload = Self::signing_payload(&self.sender, &self.receiver, self.amount, self.nonce, self.fee);
        match serialize_signing_payload(&payload) {
            Ok(bytes) => Ok(crate::crypto::hash::Hash::digest(&bytes)),
            Err(_) => Err(TransactionError::SerializationFailed),
        }
    }

    /// The stored form of the transaction.
    pub fn to_bytes(&self) -> (r: Vec<u8>)
        ensures
            r@ == self.encoding(),
    {
        let mut out: Vec<u8> = Vec::new();
        push_u64_le(&mut out, 32);
        push_bytes(&mut out, &self.sender.0);
        push_u64_le(&mut out, 32);
        push_bytes(&mut out, &self.receiver.0);
        push_u64_le(&mut out, self.amount);
        push_u64_le(&mut out, self.nonce);
        push_bytes(&mut out, &self.signature.0);
        push_u64_le(&mut out, self.fee);
        assert(out@ =~= self.encoding());
        out
    }

    /// Refuses a zero amount, then a transfer to oneself.
    pub fn validate_fields(sender: &PublicKey, receiver: &PublicKey, amount: u64) -> (r: Result<(), TransactionError>)
        ensures
            amount == 0 ==> r == Err::<(), TransactionError>(TransactionError::ZeroAmount),
            amount != 0 && sender.0@ == receiver.0@ ==> r == Err::<(), TransactionError>(
                TransactionError::SelfTransfer,
            ),
            amount != 0 && sender.0@ != receiver.0@ ==> r is Ok,
    {
        if amount == 0 {
            return Err(TransactionError::ZeroAmount);
        }
        if sender == receiver {
            return Err(TransactionError::SelfTransfer);
        }
        Ok(())
    }

    /// Checks the signature against the sender's key. The field checks of
    /// `validate_fields` do not decide it.
    pub fn verify(&self) -> (r: Result<(), TransactionError>)
        ensures
            self.signature_valid() ==> r is Ok,
            !self.signature_valid() ==> r == Err::<(), TransactionError>(
                TransactionError::InvalidSignature(crate::crypto::error::CryptoError::VerificationFailed),
            ),
    {
        let signing_hash = match self.signing_hash() {
            Ok(h) => h,
            Err(e) => {
                return Err(e);
            },
        };
        match self.sender.verify(&signing_hash, &self.signature) {
            Ok(()) => Ok(()),
            Err(e) => Err(TransactionError::InvalidSignature(e)),
        }
    }

    pub fn sender(&self) -> (r: &PublicKey)
        ensures
            *r == self.sender,
    {
        &self.sender
    }

    pub fn receiver(&self) -> (r: &PublicKey)
        ensures
            *r == self.receiver,
    {
        &self.receiver
    }

    pub fn amount(&self) -> (r: u64)
        ensures
            r == self.amount,
    {
        self.amount
    }

    pub fn nonce(&self) -> (r: u64)
        ensures
            r == self.nonce,
    {
        self.nonce
    }

    pub fn fee(&self) -> (r: u64)
        ensures
            r == self.fee,
    {
        self.fee
    }

    pub fn signature(&self) -> (r: &Signature)
        ensures
            *r == self.signature,
    {
        &self.signature
    }
}

impl Storable for Transaction {
    /// The digest of the stored form.
    fn hash(&self) -> (r: crate::crypto::hash::Hash)
        ensures
            r.0@ == self.id(),
    {
        let bytes = Transaction::to_bytes(self);
        crate::crypto::hash::Hash::digest(&bytes)
    }

    fn to_bytes(&self) -> (r: Vec<u8>)
        ensures
            r@ == self.encoding(),
    {
        Transaction::to_bytes(self)
    }
}

impl Verifiable for Transaction {
    type Error = TransactionError;

    fn verify(&self) -> (r: Result<(), TransactionError>)
        ensures
            self.signature_valid() ==> r is Ok,
            !self.signature_valid() ==> r == Err::<(), TransactionError>(
                TransactionError::InvalidSignature(crate::crypto::error::CryptoError::VerificationFailed),
            ),
    {
        Transaction::verify(self)
    }
}

} // verus!
