use vstd::prelude::*;

use crate::crypto::error::CryptoError;

verus! {

#[verifier::external_type_specification]
#[verifier::external_body]
pub struct ExBincodeErrorKind(bincode::ErrorKind);

/// Why a transaction payload is refused, with the encoder's own error.
#[derive(Debug)]
pub enum TransactionError {
    ZeroAmount,
    SelfTransfer,
    InvalidSignature(CryptoError),
    Serialization(Box<bincode::ErrorKind>),
}

} // verus!
