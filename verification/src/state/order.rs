//! The lexicographic order on address bytes that keeps the world state's
//! account list canonical.

use vstd::prelude::*;

verus! {

/// `i` is the first index at which `a` and `b` differ.
pub open spec fn first_difference(a: Seq<u8>, b: Seq<u8>, i: int) -> bool {
    &&& 0 <= i < a.len()
    &&& i < b.len()
    &&& a[i] != b[i]
    &&& forall|j: int| 0 <= j < i ==> a[j] == b[j]
}

/// `a` comes strictly before `b`: at their first difference `a` holds the
/// smaller byte.
pub open spec fn bytes_before(a: Seq<u8>, b: Seq<u8>) -> bool {
    exists|i: int| #[trigger] first_difference(a, b, i) && a[i] < b[i]
}

/// Nothing comes before itself.
pub proof fn lemma_before_irreflexive(a: Seq<u8>)
    ensures
        !bytes_before(a, a),
{
}

/// The order is transitive.
pub proof fn lemma_before_transitive(a: Seq<u8>, b: Seq<u8>, c: Seq<u8>)
    requires
        bytes_before(a, b),
        bytes_before(b, c),
    ensures
        bytes_before(a, c),
{
    let i = choose|i: int| #[trigger] first_difference(a, b, i) && a[i] < b[i];
    let k = choose|k: int| #[trigger] first_difference(b, c, k) && b[k] < c[k];
    if i < k {
        assert(first_difference(a, c, i));
    } else if k < i {
        assert(first_difference(a, c, k));
    } else {
        assert(first_difference(a, c, i));
    }
}

/// Where one key stands relative to another.
pub enum KeyPosition {
    Before,
    Same,
    After,
}

/// The position of `a` relative to `b`.
pub fn locate(a: &[u8; 32], b: &[u8; 32]) -> (r: KeyPosition)
    ensures
        r is Before ==> bytes_before(a@, b@),
        r is Same ==> a@ == b@,
        r is After ==> bytes_before(b@, a@),
{
    let mut i: usize = 0;
    while i < 32
        invariant
            0 <= i <= 32,
            forall|j: int| 0 <= j < i ==> a@[j] == b@[j],
        decreases 32 - i,
    {
        if a[i] < b[i] {
            assert(first_difference(a@, b@, i as int));
            return KeyPosition::Before;
        }
        if a[i] > b[i] {
            assert(first_difference(b@, a@, i as int));
            return KeyPosition::After;
        }
        i += 1;
    }
    assert(a@ =~= b@);
    KeyPosition::Same
}

} // verus!
