//! A small proof-of-work ledger: accounts, signed transfers, blocks with a
//! Merkle commitment, a world state with a deterministic state root, a
//! fee-ordered mempool and a miner that ties them together.

pub mod account;
pub mod block;
pub mod blockchain;
pub mod constants;
pub mod crypto;
pub mod encoding;
pub mod error;
pub mod interfaces;
pub mod mempool;
pub mod miner;
pub mod state;
pub mod text;
pub mod transaction;
