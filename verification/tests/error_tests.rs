use blockchain_core::crypto::CryptoError;
use blockchain_core::error::{StateError, TransactionError};

#[test]
fn transaction_error_messages() {
    assert_eq!(
        TransactionError::InvalidNonce { expected: 12, got: 3 }.message(),
        "Nonce didnot match expected:12 got:3"
    );
    assert_eq!(
        TransactionError::InsufficentBalance { required: 1000, available: 0 }.message(),
        "Required balance:1000 available balance:0"
    );
    assert_eq!(
        TransactionError::InvalidSignature(CryptoError::InvalidPublicKeyBytes).message(),
        "Invalid cryptographic signature: Invalid public key format: expected 32 bytes"
    );
    assert_eq!(
        TransactionError::CostOverflow.message(),
        "Cost calculation overflowed u64"
    );
}

#[test]
fn state_error_messages() {
    assert_eq!(
        StateError::InvalidBlockHeight { current: 0, expected: 1, got: 18446744073709551615 }.message(),
        "Invalid block height sequence. Current height: 0, Expected: 1, Got: 18446744073709551615"
    );
    assert_eq!(
        StateError::AccountNotFound { address: "ab".to_string() }.message(),
        "Account ab does not exist in world state"
    );
    assert_eq!(
        StateError::InvalidTransaction(TransactionError::ZeroAmount).message(),
        "Transaction validation failed: Transaction amount must be greater than zero"
    );
    assert_eq!(
        StateError::BlockError { error: "x".to_string() }.message(),
        "Block execution failed x"
    );
    assert_eq!(
        StateError::InvalidNonce { address: "cd".to_string(), expected: 40, got: 9 }.message(),
        "Invalid nonce for account cd. Expected: 40, Got: 9"
    );
}

#[test]
fn conversions_wrap_the_inner_error() {
    assert_eq!(
        TransactionError::from(CryptoError::VerificationFailed),
        TransactionError::InvalidSignature(CryptoError::VerificationFailed)
    );
    assert_eq!(
        StateError::from(TransactionError::SelfTransfer),
        StateError::InvalidTransaction(TransactionError::SelfTransfer)
    );
}

fn every_state_error() -> Vec<StateError> {
    let awkward = "a\"b\\c\n\r\t\0\u{1}\u{1f}\u{7f}é'".to_string();
    vec![
        StateError::AccountNotFound { address: "ab01".to_string() },
        StateError::AccountNotFound { address: awkward.clone() },
        StateError::InsufficientBalance { available: 0, required: 51 },
        StateError::InvalidNonce { address: awkward.clone(), expected: 40, got: 9 },
        StateError::InvalidTransaction(TransactionError::ZeroAmount),
        StateError::InvalidTransaction(TransactionError::SelfTransfer),
        StateError::InvalidTransaction(TransactionError::SerializationFailed),
        StateError::InvalidTransaction(TransactionError::CostOverflow),
        StateError::InvalidTransaction(TransactionError::InvalidNonce { expected: 7, got: 8 }),
        StateError::InvalidTransaction(TransactionError::InsufficentBalance { required: 10, available: 2 }),
        StateError::InvalidTransaction(TransactionError::InvalidSignature(CryptoError::VerificationFailed)),
        StateError::InvalidTransaction(TransactionError::InvalidSignature(CryptoError::InvalidPublicKeyBytes)),
        StateError::InvalidTransaction(TransactionError::InvalidSignature(CryptoError::InvalidSignatureBytes)),
        StateError::InvalidTransaction(TransactionError::InvalidSignature(CryptoError::KeyGenerationFailed(
            awkward.clone(),
        ))),
        StateError::InvalidTransaction(TransactionError::InvalidSignature(CryptoError::HexDecodeError("zz".to_string()))),
        StateError::InvalidBlockHeight { current: 0, expected: 1, got: u64::MAX },
        StateError::InvalidPreviousHash { expected: "00ff".to_string(), got: awkward.clone() },
        StateError::BlockError { error: "total transaction fees overflowed".to_string() },
    ]
}

#[test]
fn debug_strings_match_the_derived_debug() {
    for e in every_state_error() {
        assert_eq!(e.debug_string(), format!("{:?}", e));
        if let StateError::InvalidTransaction(t) = &e {
            assert_eq!(t.debug_string(), format!("{:?}", t));
            if let TransactionError::InvalidSignature(c) = t {
                assert_eq!(c.debug_string(), format!("{:?}", c));
            }
        }
    }
}

#[test]
fn debug_string_of_a_block_height_error() {
    assert_eq!(
        StateError::InvalidBlockHeight { current: 3, expected: 4, got: 9 }.debug_string(),
        "InvalidBlockHeight { current: 3, expected: 4, got: 9 }"
    );
    assert_eq!(
        StateError::BlockError { error: "x\"y".to_string() }.debug_string(),
        "BlockError { error: \"x\\\"y\" }"
    );
}
