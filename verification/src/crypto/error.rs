use vstd::prelude::*;

use crate::text::{debug_quoted, debug_quoted_string};

verus! {

/// Failures of the key and signature primitives.
#[derive(Debug, Clone, PartialEq, Eq)]
pub enum CryptoError {
    InvalidPublicKeyBytes,
    InvalidSignatureBytes,
    VerificationFailed,
    KeyGenerationFailed(String),
    HexDecodeError(String),
}

} // verus!

verus! {

/// The message of each error.
pub open spec fn crypto_error_text(e: CryptoError) -> Seq<char> {
    match e {
        CryptoError::InvalidPublicKeyBytes => "Invalid public key format: expected 32 bytes"@,
        CryptoError::InvalidSignatureBytes => "Invalid signature format: expected 64 bytes"@,
        CryptoError::VerificationFailed => "Signature verification failed: invalid signature or tampered data"@,
        CryptoError::KeyGenerationFailed(s) => "Failed to generate secure random keypair: "@ + s@,
        CryptoError::HexDecodeError(s) => "Hex decoding failure: "@ + s@,
    }
}

impl CryptoError {
    /// The message of the error.
    pub fn message(&self) -> (r: String)
        ensures
            r@ == crypto_error_text(*self),
    {
        match self {
            CryptoError::InvalidPublicKeyBytes => {
                proof {
                    reveal_strlit("Invalid public key format: expected 32 bytes");
                }
                String::from_str("Invalid public key format: expected 32 bytes")
            },
            CryptoError::InvalidSignatureBytes => {
                proof {
                    reveal_strlit("Invalid signature format: expected 64 bytes");
                }
                String::from_str("Invalid signature format: expected 64 bytes")
            },
            CryptoError::VerificationFailed => {
                proof {
                    reveal_strlit("Signature verification failed: invalid signature or tampered data");
                }
                String::from_str("Signature verification failed: invalid signature or tampered data")
            },
            CryptoError::KeyGenerationFailed(s) => {
                proof {
                    reveal_strlit("Failed to generate secure random keypair: ");
                }
                let mut r = String::from_str("Failed to generate secure random keypair: ");
                r.append(s.as_str());
                r
            },
            CryptoError::HexDecodeError(s) => {
                proof {
                    reveal_strlit("Hex decoding failure: ");
                }
                let mut r = String::from_str("Hex decoding failure: ");
                r.append(s.as_str());
                r
            },
        }
    }
}

} // verus!

verus! {

/// The `Debug` form of each error, as its derived `Debug` writes it.
pub open spec fn crypto_error_debug(e: CryptoError) -> Seq<char> {
    match e {
        CryptoError::InvalidPublicKeyBytes => "InvalidPublicKeyBytes"@,
        CryptoError::InvalidSignatureBytes => "InvalidSignatureBytes"@,
        CryptoError::VerificationFailed => "VerificationFailed"@,
        CryptoError::KeyGenerationFailed(s) => "KeyGenerationFailed("@ + debug_quoted(s@) + ")"@,
        CryptoError::HexDecodeError(s) => "HexDecodeError("@ + debug_quoted(s@) + ")"@,
    }
}

impl CryptoError {
    /// The `Debug` form of the error.
    pub fn debug_string(&self) -> (r: String)
        ensures
            r@ == crypto_error_debug(*self),
    {
        proof {
            reveal_strlit("InvalidPublicKeyBytes");
            reveal_strlit("InvalidSignatureBytes");
            reveal_strlit("VerificationFailed");
            reveal_strlit("KeyGenerationFailed(");
            reveal_strlit("HexDecodeError(");
            reveal_strlit(")");
        }
        match self {
            CryptoError::InvalidPublicKeyBytes => String::from_str("InvalidPublicKeyBytes"),
            CryptoError::InvalidSignatureBytes => String::from_str("InvalidSignatureBytes"),
            CryptoError::VerificationFailed => String::from_str("VerificationFailed"),
            CryptoError::KeyGenerationFailed(s) => {
                let mut r = String::from_str("KeyGenerationFailed(");
                let inner = debug_quoted_string(s.as_str());
                r.append(inner.as_str());
                r.append(")");
                r
            },
            CryptoError::HexDecodeError(s) => {
                let mut r = String::from_str("HexDecodeError(");
                let inner = debug_quoted_string(s.as_str());
                r.append(inner.as_str());
                r.append(")");
                r
            },
        }
    }
}

} // verus!
