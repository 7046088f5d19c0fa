//! Keys, signatures, addresses and the 32-byte digest of the ledger.

pub mod ed25519;
pub mod error;
pub mod hash;
pub mod keys;

pub use error::CryptoError;
pub use keys::{Address, Keypair, PublicKey, Signature};
