pub mod address;
pub mod keypair;
pub mod public_key;
pub mod signature;

pub use address::Address;
pub use keypair::Keypair;
pub use public_key::PublicKey;
pub use signature::Signature;
