use vstd::prelude::*;

verus! {

/// Something with a canonical byte encoding and a digest of it.
pub trait Storable {
    fn hash(&self) -> crate::crypto::hash::Hash;

    fn to_bytes(&self) -> Vec<u8>;
}

} // verus!
