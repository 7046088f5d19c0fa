//! The behaviours that ledger objects share.

pub mod account;
pub mod executable;
pub mod storable;
pub mod verifiable;

pub use account::IAccount;
pub use executable::Executable;
pub use storable::Storable;
pub use verifiable::Verifiable;
