use vstd::prelude::*;

use crate::encoding::slices_equal;

verus! {

/// A 64-byte Ed25519 signature.
#[derive(Clone, Copy, Debug)]
pub struct Signature(pub [u8; 64]);

impl Signature {
    /// The signature with these bytes.
    pub fn from_bytes(bytes: &[u8; 64]) -> (r: Signature)
        ensures
            r.0@ == bytes@,
    {
        Signature(*bytes)
    }

    /// The 64 bytes of the signature.
    pub fn to_bytes(&self) -> (r: [u8; 64])
        ensures
            r@ == self.0@,
    {
        self.0
    }
}

impl PartialEq for Signature {
    fn eq(&self, other: &Self) -> (r: bool) {
        slices_equal(&self.0, &other.0)
    }
}

impl Eq for Signature {}

impl vstd::std_specs::cmp::PartialEqSpecImpl for Signature {
    open spec fn obeys_eq_spec() -> bool {
        true
    }

    open spec fn eq_spec(&self, other: &Self) -> bool {
        self.0@ == other.0@
    }
}

} // verus!
