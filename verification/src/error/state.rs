use vstd::prelude::*;

use crate::crypto::keys::address::Address;
use crate::error::account::AccountError;
use crate::error::transaction::TransactionError;

verus! {

/// Why a state transition is refused, by address.
#[derive(Debug)]
pub enum StateError {
    AccountNotFound { address: Address },
    InvalidNonce { address: Address, expected: u64, got: u64 },
    InvalidTransaction(TransactionError),
    Account(AccountError),
    FeeOverflow,
    InvalidBlockHeight { current: u64, expected: u64, got: u64 },
    InvalidPreviousHash { expected: String, got: String },
}

} // verus!
