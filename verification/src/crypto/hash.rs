use vstd::prelude::*;
use sha2::Digest;

use crate::text::{hex_string, hex_text};

verus! {

/// What SHA-256 gives for `data`.
pub uninterp spec fn sha256_digest(data: Seq<u8>) -> Seq<u8>;

/// `sha2::Sha256::digest`: the SHA-256 digest of `data`. The contract only
/// names the result; it says nothing of its bytes beyond that they depend
/// on `data` alone.
#[verifier::external_body]
fn sha256(data: &[u8]) -> (r: [u8; 32])
    ensures
        r@ == sha256_digest(data@),
{
    sha2::Sha256::digest(data).into()
}

/// Whether two 32-byte strings hold the same bytes.
pub fn bytes32_equal(a: &[u8; 32], b: &[u8; 32]) -> (r: bool)
    ensures
        r == (a@ == b@),
{
    let mut i: usize = 0;
    while i < 32
        invariant
            0 <= i <= 32,
            forall|j: int| 0 <= j < i ==> a@[j] == b@[j],
        decreases 32 - i,
    {
        if a[i] != b[i] {
            return false;
        }
        i += 1;
    }
    assert(a@ =~= b@);
    true
}

/// A 32-byte digest.
#[derive(Clone, Copy, Debug)]
pub struct Hash(pub [u8; 32]);

/// The 32 zero bytes of the default digest.
pub open spec fn zero_bytes32() -> Seq<u8> {
    Seq::new(32, |i: int| 0u8)
}

impl Hash {
    /// The digest of `data`.
    pub fn digest(data: &[u8]) -> (r: Hash)
        ensures
            r.0@ == sha256_digest(data@),
    {
        Hash(sha256(data))
    }

    /// The 32 bytes of the digest.
    pub fn as_bytes(&self) -> (r: &[u8; 32])
        ensures
            r@ == self.0@,
    {
        &self.0
    }

    /// The bytes of the digest, in order.
    pub fn iter(&self) -> (r: core::slice::Iter<'_, u8>)
        ensures
            vstd::std_specs::iter::IteratorSpec::remaining(&r) == self.0@.as_ref(),
    {
        let bytes: &[u8] = self.0.as_slice();
        bytes.iter()
    }

    /// Lower-case hex rendering of the digest.
    pub fn to_hex(&self) -> (r: String)
        ensures
            r@ == hex_text(self.0@),
    {
        hex_string(&self.0)
    }
}

impl Default for Hash {
    fn default() -> (r: Hash)
        ensures
            r.0@ == zero_bytes32(),
    {
        let r = Hash([0u8; 32]);
        assert(r.0@ =~= zero_bytes32());
        r
    }
}

impl PartialEq for Hash {
    fn eq(&self, other: &Self) -> (r: bool) {
        bytes32_equal(&self.0, &other.0)
    }
}

impl Eq for Hash {}

impl vstd::std_specs::cmp::PartialEqSpecImpl for Hash {
    open spec fn obeys_eq_spec() -> bool {
        true
    }

    open spec fn eq_spec(&self, other: &Self) -> bool {
        self.0@ == other.0@
    }
}

} // verus!
