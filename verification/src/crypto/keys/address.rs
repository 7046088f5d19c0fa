use vstd::prelude::*;

use crate::crypto::hash::bytes32_equal;
use crate::crypto::keys::public_key::PublicKey;
use crate::text::{hex_string, hex_text};

verus! {

/// An account address: the public key that controls it.
#[derive(Clone, Copy, Debug)]
pub struct Address(pub PublicKey);

impl Address {
    /// The address of `public_key`.
    pub fn new(public_key: PublicKey) -> (r: Address)
        ensures
            r.0 == public_key,
    {
        Address(public_key)
    }

    /// The public key behind the address.
    pub fn public_key(&self) -> (r: &PublicKey)
        ensures
            *r == self.0,
    {
        &self.0
    }

    /// Lower-case hex rendering of the address bytes.
    pub fn to_hex(&self) -> (r: String)
        ensures
            r@ == hex_text(self.0.0@),
    {
        hex_string(&self.0.0)
    }
}

impl From<PublicKey> for Address {
    fn from(public_key: PublicKey) -> (r: Address) {
        Address(public_key)
    }
}

impl vstd::std_specs::convert::FromSpecImpl<PublicKey> for Address {
    open spec fn obeys_from_spec() -> bool {
        true
    }

    open spec fn from_spec(v: PublicKey) -> Address {
        Address(v)
    }
}

impl PartialEq for Address {
    fn eq(&self, other: &Self) -> (r: bool) {
        bytes32_equal(&self.0.0, &other.0.0)
    }
}

impl Eq for Address {}

impl vstd::std_specs::cmp::PartialEqSpecImpl for Address {
    open spec fn obeys_eq_spec() -> bool {
        true
    }

    open spec fn eq_spec(&self, other: &Self) -> bool {
        self.0.0@ == other.0.0@
    }
}

} // verus!
