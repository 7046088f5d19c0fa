//! Errors of transaction validation and of state transitions.

use vstd::prelude::*;

use crate::crypto::error::{crypto_error_debug, crypto_error_text, CryptoError};
use crate::text::{debug_quoted, debug_quoted_string, decimal_string, decimal_text};

pub mod account;
pub mod state;
pub mod transaction;

verus! {

/// Why a transaction is refused.
#[derive(Debug, PartialEq, Eq, Clone)]
pub enum TransactionError {
    ZeroAmount,
    SelfTransfer,
    InvalidSignature(CryptoError),
    SerializationFailed,
    CostOverflow,
    InvalidNonce { expected: u64, got: u64 },
    InsufficentBalance { required: u64, available: u64 },
}

/// Why a state transition is refused.
#[derive(Debug, PartialEq, Eq, Clone)]
pub enum StateError {
    AccountNotFound { address: String },
    InsufficientBalance { available: u64, required: u64 },
    InvalidNonce { address: String, expected: u64, got: u64 },
    InvalidTransaction(TransactionError),
    InvalidBlockHeight { current: u64, expected: u64, got: u64 },
    InvalidPreviousHash { expected: String, got: String },
    BlockError { error: String },
}

impl From<CryptoError> for TransactionError {
    fn from(e: CryptoError) -> (r: TransactionError) {
        TransactionError::InvalidSignature(e)
    }
}

impl vstd::std_specs::convert::FromSpecImpl<CryptoError> for TransactionError {
    open spec fn obeys_from_spec() -> bool {
        true
    }

    open spec fn from_spec(v: CryptoError) -> TransactionError {
        TransactionError::InvalidSignature(v)
    }
}

impl From<TransactionError> for StateError {
    fn from(e: TransactionError) -> (r: StateError) {
        StateError::InvalidTransaction(e)
    }
}

impl vstd::std_specs::convert::FromSpecImpl<TransactionError> for StateError {
    open spec fn obeys_from_spec() -> bool {
        true
    }

    open spec fn from_spec(v: TransactionError) -> StateError {
        StateError::InvalidTransaction(v)
    }
}

/// The message of each transaction error.
pub open spec fn transaction_error_text(e: TransactionError) -> Seq<char> {
    match e {
        TransactionError::ZeroAmount => "Transaction amount must be greater than zero"@,
        TransactionError::SelfTransfer => "Sender and receiver cannot be the same address"@,
        TransactionError::InvalidSignature(c) => "Invalid cryptographic signature: "@ + crypto_error_text(c),
        TransactionError::SerializationFailed => "Failed to serialize transaction payload"@,
        TransactionError::CostOverflow => "Cost calculation overflowed u64"@,
        TransactionError::InvalidNonce { expected, got } => "Nonce didnot match expected:"@ + decimal_text(
            expected as nat,
        ) + " got:"@ + decimal_text(got as nat),
        TransactionError::InsufficentBalance { required, available } => "Required balance:"@
            + decimal_text(required as nat) + " available balance:"@ + decimal_text(available as nat),
    }
}

/// The message of each state error.
pub open spec fn state_error_text(e: StateError) -> Seq<char> {
    match e {
        StateError::AccountNotFound { address } => "Account "@ + address@ + " does not exist in world state"@,
        StateError::InsufficientBalance { available, required } => "Insufficient balance. Available: "@
            + decimal_text(available as nat) + ", Required: "@ + decimal_text(required as nat),
        StateError::InvalidNonce { address, expected, got } => "Invalid nonce for account "@ + address@
            + ". Expected: "@ + decimal_text(expected as nat) + ", Got: "@ + decimal_text(got as nat),
        StateError::InvalidTransaction(t) => "Transaction validation failed: "@ + transaction_error_text(t),
        StateError::InvalidBlockHeight { current, expected, got } =>
            "Invalid block height sequence. Current height: "@ + decimal_text(current as nat)
            + ", Expected: "@ + decimal_text(expected as nat) + ", Got: "@ + decimal_text(got as nat),
        StateError::InvalidPreviousHash { expected, got } => "Invalid block linkage. Expected previous hash: "@
            + expected@ + ", Got: "@ + got@,
        StateError::BlockError { error } => "Block execution failed "@ + error@,
    }
}

/// `prefix` followed by the decimal numeral of `n`.
fn with_number(prefix: String, n: u64) -> (r: String)
    ensures
        r@ == prefix@ + decimal_text(n as nat),
{
    let mut r = prefix;
    let digits = decimal_string(n);
    r.append(digits.as_str());
    r
}

impl TransactionError {
    /// The message of the error.
    pub fn message(&self) -> (r: String)
        ensures
            r@ == transaction_error_text(*self),
    {
        proof {
            reveal_strlit("Transaction amount must be greater than zero");
            reveal_strlit("Sender and receiver cannot be the same address");
            reveal_strlit("Invalid cryptographic signature: ");
            reveal_strlit("Failed to serialize transaction payload");
            reveal_strlit("Cost calculation overflowed u64");
            reveal_strlit("Nonce didnot match expected:");
            reveal_strlit(" got:");
            reveal_strlit("Required balance:");
            reveal_strlit(" available balance:");
        }
        match self {
            TransactionError::ZeroAmount => String::from_str("Transaction amount must be greater than zero"),
            TransactionError::SelfTransfer => String::from_str("Sender and receiver cannot be the same address"),
            TransactionError::InvalidSignature(c) => {
                let mut r = String::from_str("Invalid cryptographic signature: ");
                let inner = c.message();
                r.append(inner.as_str());
                r
            },
            TransactionError::SerializationFailed => String::from_str("Failed to serialize transaction payload"),
            TransactionError::CostOverflow => String::from_str("Cost calculation overflowed u64"),
            TransactionError::InvalidNonce { expected, got } => {
                let mut r = with_number(String::from_str("Nonce didnot match expected:"), *expected);
                r.append(" got:");
                with_number(r, *got)
            },
            TransactionError::InsufficentBalance { required, available } => {
                let mut r = with_number(String::from_str("Required balance:"), *required);
                r.append(" available balance:");
                with_number(r, *available)
            },
        }
    }
}

impl StateError {
    /// The message of the error.
    pub fn message(&self) -> (r: String)
        ensures
            r@ == state_error_text(*self),
    {
        proof {
            reveal_strlit("Account ");
            reveal_strlit(" does not exist in world state");
            reveal_strlit("Insufficient balance. Available: ");
            reveal_strlit(", Required: ");
            reveal_strlit("Invalid nonce for account ");
            reveal_strlit(". Expected: ");
            reveal_strlit(", Got: ");
            reveal_strlit("Transaction validation failed: ");
            reveal_strlit("Invalid block height sequence. Current height: ");
            reveal_strlit(", Expected: ");
            reveal_strlit("Invalid block linkage. Expected previous hash: ");
            reveal_strlit("Block execution failed ");
        }
        match self {
            StateError::AccountNotFound { address } => {
                let mut r = String::from_str("Account ");
                r.append(address.as_str());
                r.append(" does not exist in world state");
                r
            },
            StateError::InsufficientBalance { available, required } => {
                let mut r = with_number(String::from_str("Insufficient balance. Available: "), *available);
                r.append(", Required: ");
                with_number(r, *required)
            },
            StateError::InvalidNonce { address, expected, got } => {
                let mut r = String::from_str("Invalid nonce for account ");
                r.append(address.as_str());
                r.append(". Expected: ");
                let mut r = with_number(r, *expected);
                r.append(", Got: ");
                with_number(r, *got)
            },
            StateError::InvalidTransaction(t) => {
                let mut r = String::from_str("Transaction validation failed: ");
                let inner = t.message();
                r.append(inner.as_str());
                r
            },
            StateError::InvalidBlockHeight { current, expected, got } => {
                let mut r = with_number(
                    String::from_str("Invalid block height sequence. Current height: "),
                    *current,
                );
                r.append(", Expected: ");
                let mut r = with_number(r, *expected);
                r.append(", Got: ");
                with_number(r, *got)
            },
            StateError::InvalidPreviousHash { expected, got } => {
                let mut r = String::from_str("Invalid block linkage. Expected previous hash: ");
                r.append(expected.as_str());
                r.append(", Got: ");
                r.append(got.as_str());
                r
            },
            StateError::BlockError { error } => {
                let mut r = String::from_str("Block execution failed ");
                r.append(error.as_str());
                r
            },
        }
    }
}

} // verus!

verus! {

/// The `Debug` form of each transaction error, as its derived `Debug`
/// writes it.
pub open spec fn transaction_error_debug(e: TransactionError) -> Seq<char> {
    match e {
        TransactionError::ZeroAmount => "ZeroAmount"@,
        TransactionError::SelfTransfer => "SelfTransfer"@,
        TransactionError::InvalidSignature(c) => "InvalidSignature("@ + crypto_error_debug(c) + ")"@,
        TransactionError::SerializationFailed => "SerializationFailed"@,
        TransactionError::CostOverflow => "CostOverflow"@,
        TransactionError::InvalidNonce { expected, got } => "InvalidNonce { expected: "@ + decimal_text(
            expected as nat,
        ) + ", got: "@ + decimal_text(got as nat) + " }"@,
        TransactionError::InsufficentBalance { required, available } => "InsufficentBalance { required: "@
            + decimal_text(required as nat) + ", available: "@ + decimal_text(available as nat) + " }"@,
    }
}

/// The `Debug` form of each state error, as its derived `Debug` writes it.
pub open spec fn state_error_debug(e: StateError) -> Seq<char> {
    match e {
        StateError::AccountNotFound { address } => "AccountNotFound { address: "@ + debug_quoted(address@)
            + " }"@,
        StateError::InsufficientBalance { available, required } => "InsufficientBalance { available: "@
            + decimal_text(available as nat) + ", required: "@ + decimal_text(required as nat) + " }"@,
        StateError::InvalidNonce { address, expected, got } => "InvalidNonce { address: "@ + debug_quoted(
            address@,
        ) + ", expected: "@ + decimal_text(expected as nat) + ", got: "@ + decimal_text(got as nat) + " }"@,
        StateError::InvalidTransaction(t) => "InvalidTransaction("@ + transaction_error_debug(t) + ")"@,
        StateError::InvalidBlockHeight { current, expected, got } => "InvalidBlockHeight { current: "@
            + decimal_text(current as nat) + ", expected: "@ + decimal_text(expected as nat) + ", got: "@
            + decimal_text(got as nat) + " }"@,
        StateError::InvalidPreviousHash { expected, got } => "InvalidPreviousHash { expected: "@
            + debug_quoted(expected@) + ", got: "@ + debug_quoted(got@) + " }"@,
        StateError::BlockError { error } => "BlockError { error: "@ + debug_quoted(error@) + " }"@,
    }
}

impl TransactionError {
    /// The `Debug` form of the error.
    pub fn debug_string(&self) -> (r: String)
        ensures
            r@ == transaction_error_debug(*self),
    {
        proof {
            reveal_strlit("ZeroAmount");
            reveal_strlit("SelfTransfer");
            reveal_strlit("InvalidSignature(");
            reveal_strlit(")");
            reveal_strlit("SerializationFailed");
            reveal_strlit("CostOverflow");
            reveal_strlit("InvalidNonce { expected: ");
            reveal_strlit(", got: ");
            reveal_strlit(" }");
            reveal_strlit("InsufficentBalance { required: ");
            reveal_strlit(", available: ");
        }
        match self {
            TransactionError::ZeroAmount => String::from_str("ZeroAmount"),
            TransactionError::SelfTransfer => String::from_str("SelfTransfer"),
            TransactionError::InvalidSignature(c) => {
                let mut r = String::from_str("InvalidSignature(");
                let inner = c.debug_string();
                r.append(inner.as_str());
                r.append(")");
                r
            },
            TransactionError::SerializationFailed => String::from_str("SerializationFailed"),
            TransactionError::CostOverflow => String::from_str("CostOverflow"),
            TransactionError::InvalidNonce { expected, got } => {
                let mut r = with_number(String::from_str("InvalidNonce { expected: "), *expected);
                r.append(", got: ");
                let mut r = with_number(r, *got);
                r.append(" }");
                r
            },
            TransactionError::InsufficentBalance { required, available } => {
                let mut r = with_number(String::from_str("InsufficentBalance { required: "), *required);
                r.append(", available: ");
                let mut r = with_number(r, *available);
                r.append(" }");
                r
            },
        }
    }
}

/// `prefix`, the `Debug` form of `s`, then `suffix`.
fn with_quoted(prefix: String, s: &String, suffix: &str) -> (r: String)
    ensures
        r@ == prefix@ + debug_quoted(s@) + suffix@,
{
    let mut r = prefix;
    let q = debug_quoted_string(s.as_str());
    r.append(q.as_str());
    r.append(suffix);
    r
}

impl StateError {
    /// The `Debug` form of the error.
    pub fn debug_string(&self) -> (r: String)
        ensures
            r@ == state_error_debug(*self),
    {
        proof {
            reveal_strlit("AccountNotFound { address: ");
            reveal_strlit(" }");
            reveal_strlit("InsufficientBalance { available: ");
            reveal_strlit(", required: ");
            reveal_strlit("InvalidNonce { address: ");
            reveal_strlit(", expected: ");
            reveal_strlit(", got: ");
            reveal_strlit("InvalidTransaction(");
            reveal_strlit(")");
            reveal_strlit("InvalidBlockHeight { current: ");
            reveal_strlit("InvalidPreviousHash { expected: ");
            reveal_strlit("BlockError { error: ");
        }
        match self {
            StateError::AccountNotFound { address } => {
                with_quoted(String::from_str("AccountNotFound { address: "), address, " }")
            },
            StateError::InsufficientBalance { available, required } => {
                let mut r = with_number(String::from_str("InsufficientBalance { available: "), *available);
                r.append(", required: ");
                let mut r = with_number(r, *required);
                r.append(" }");
                r
            },
            StateError::InvalidNonce { address, expected, got } => {
                let r = with_quoted(String::from_str("InvalidNonce { address: "), address, ", expected: ");
                let mut r = with_number(r, *expected);
                r.append(", got: ");
                let mut r = with_number(r, *got);
                r.append(" }");
                r
            },
            StateError::InvalidTransaction(t) => {
                let mut r = String::from_str("InvalidTransaction(");
                let inner = t.debug_string();
                r.append(inner.as_str());
                r.append(")");
                r
            },
            StateError::InvalidBlockHeight { current, expected, got } => {
                let mut r = with_number(String::from_str("InvalidBlockHeight { current: "), *current);
                r.append(", expected: ");
                let mut r = with_number(r, *expected);
                r.append(", got: ");
                let mut r = with_number(r, *got);
                r.append(" }");
                r
            },
            StateError::InvalidPreviousHash { expected, got } => {
                let r = with_quoted(String::from_str("InvalidPreviousHash { expected: "), expected, ", got: ");
                let r2 = with_quoted(r, got, " }");
                assert(r2@ =~= state_error_debug(*self));
                r2
            },
            StateError::BlockError { error } => with_quoted(String::from_str("BlockError { error: "), error, " }"),
        }
    }
}

} // verus!
