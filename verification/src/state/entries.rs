//! The account list of the world state: entries kept strictly sorted by
//! address bytes, read as a map from address to account.

use vstd::prelude::*;

use crate::account::{Account, AccountModel};
use crate::crypto::keys::address::Address;
use crate::state::order::{bytes_before, lemma_before_irreflexive, lemma_before_transitive};

verus! {

/// The bytes by which an entry is ordered.
pub open spec fn key_of(e: (Address, Account)) -> Seq<u8> {
    e.0.0.0@
}

/// Every entry's address comes strictly before the next one's.
pub open spec fn strictly_sorted(s: Seq<(Address, Account)>) -> bool {
    forall|i: int, j: int|
        0 <= i < j < s.len() ==> bytes_before(#[trigger] key_of(s[i]), #[trigger] key_of(s[j]))
}

/// Entry `i` belongs to address `a`.
pub open spec fn holds_at(s: Seq<(Address, Account)>, i: int, a: Address) -> bool {
    0 <= i < s.len() && s[i].0 == a
}

/// The accounts held, by address.
pub open spec fn entries_map(s: Seq<(Address, Account)>) -> Map<Address, AccountModel> {
    Map::new(
        |a: Address| exists|i: int| #[trigger] holds_at(s, i, a),
        |a: Address| s[choose|i: int| #[trigger] holds_at(s, i, a)].1@,
    )
}

/// The entries as plain (address, account) pairs.
pub open spec fn entry_models(s: Seq<(Address, Account)>) -> Seq<(Address, AccountModel)> {
    Seq::new(s.len(), |i: int| (s[i].0, s[i].1@))
}

/// In a sorted list, entry `i` is what the map holds for its address.
pub proof fn lemma_lookup(s: Seq<(Address, Account)>, i: int)
    requires
        strictly_sorted(s),
        0 <= i < s.len(),
    ensures
        entries_map(s).contains_key(s[i].0),
        entries_map(s)[s[i].0] == s[i].1@,
{
    let a = s[i].0;
    assert(holds_at(s, i, a));
    let j = choose|j: int| #[trigger] holds_at(s, j, a);
    if j < i {
        assert(bytes_before(key_of(s[j]), key_of(s[i])));
        lemma_before_irreflexive(key_of(s[i]));
    } else if i < j {
        assert(bytes_before(key_of(s[i]), key_of(s[j])));
        lemma_before_irreflexive(key_of(s[i]));
    }
}

/// An address that no entry holds is not in the map.
pub proof fn lemma_absent(s: Seq<(Address, Account)>, a: Address)
    requires
        forall|i: int| 0 <= i < s.len() ==> s[i].0 != a,
    ensures
        !entries_map(s).contains_key(a),
{
}

/// Replacing the account of an entry keeps the list sorted and updates the
/// map at that address.
pub proof fn lemma_update(s: Seq<(Address, Account)>, i: int, e: (Address, Account))
    requires
        strictly_sorted(s),
        0 <= i < s.len(),
        e.0 == s[i].0,
    ensures
        strictly_sorted(s.update(i, e)),
        entries_map(s.update(i, e)) == entries_map(s).insert(e.0, e.1@),
{
    let t = s.update(i, e);
    assert forall|j: int| 0 <= j < t.len() implies key_of(t[j]) == key_of(s[j]) by {}
    assert(strictly_sorted(t));
    let m = entries_map(s).insert(e.0, e.1@);
    assert forall|a: Address| entries_map(t).contains_key(a) <==> m.contains_key(a) by {
        if entries_map(t).contains_key(a) {
            let j = choose|j: int| #[trigger] holds_at(t, j, a);
            if j != i {
                assert(holds_at(s, j, a));
            }
        }
        if entries_map(s).contains_key(a) {
            let j = choose|j: int| #[trigger] holds_at(s, j, a);
            assert(holds_at(t, j, a));
        }
        if a == e.0 {
            assert(holds_at(t, i, a));
        }
    }
    assert forall|a: Address| entries_map(t).contains_key(a) implies entries_map(t)[a] == m[a] by {
        let j = choose|j: int| #[trigger] holds_at(t, j, a);
        lemma_lookup(t, j);
        if j != i {
            lemma_lookup(s, j);
        }
    }
    assert(entries_map(t) =~= m);
}

/// Inserting an entry at its sorted position keeps the list sorted and adds
/// its address to the map.
pub proof fn lemma_insert(s: Seq<(Address, Account)>, p: int, e: (Address, Account))
    requires
        strictly_sorted(s),
        0 <= p <= s.len(),
        forall|j: int| 0 <= j < p ==> bytes_before(#[trigger] key_of(s[j]), key_of(e)),
        forall|j: int| p <= j < s.len() ==> bytes_before(key_of(e), #[trigger] key_of(s[j])),
    ensures
        strictly_sorted(s.insert(p, e)),
        entries_map(s.insert(p, e)) == entries_map(s).insert(e.0, e.1@),
{
    let t = s.insert(p, e);
    assert forall|i: int, j: int| 0 <= i < j < t.len() implies bytes_before(
        #[trigger] key_of(t[i]),
        #[trigger] key_of(t[j]),
    ) by {
        if j < p {
            assert(t[i] == s[i] && t[j] == s[j]);
        } else if j == p {
            assert(t[i] == s[i] && t[j] == e);
        } else if i < p {
            assert(t[i] == s[i] && t[j] == s[j - 1]);
        } else if i == p {
            assert(t[i] == e && t[j] == s[j - 1]);
        } else {
            assert(t[i] == s[i - 1] && t[j] == s[j - 1]);
        }
    }
    let m = entries_map(s).insert(e.0, e.1@);
    assert forall|a: Address| entries_map(t).contains_key(a) <==> m.contains_key(a) by {
        if entries_map(t).contains_key(a) {
            let j = choose|j: int| #[trigger] holds_at(t, j, a);
            if j < p {
                assert(holds_at(s, j, a));
            } else if j > p {
                assert(holds_at(s, j - 1, a));
            }
        }
        if entries_map(s).contains_key(a) {
            let j = choose|j: int| #[trigger] holds_at(s, j, a);
            if j < p {
                assert(holds_at(t, j, a));
            } else {
                assert(holds_at(t, j + 1, a));
            }
        }
        if a == e.0 {
            assert(holds_at(t, p, a));
        }
    }
    assert forall|a: Address| entries_map(t).contains_key(a) implies entries_map(t)[a] == m[a] by {
        let j = choose|j: int| #[trigger] holds_at(t, j, a);
        lemma_lookup(t, j);
        if j < p {
            lemma_lookup(s, j);
            assert(key_of(s[j]) != key_of(e)) by {
                lemma_before_irreflexive(key_of(e));
            }
        } else if j > p {
            lemma_lookup(s, j - 1);
            assert(key_of(s[j - 1]) != key_of(e)) by {
                lemma_before_irreflexive(key_of(e));
            }
        }
    }
    assert(entries_map(t) =~= m);
}

/// Dropping the first entry of a sorted list removes its address from the map.
pub proof fn lemma_drop_first(s: Seq<(Address, Account)>)
    requires
        strictly_sorted(s),
        s.len() > 0,
    ensures
        strictly_sorted(s.drop_first()),
        entries_map(s.drop_first()) == entries_map(s).remove(s[0].0),
{
    let t = s.drop_first();
    assert forall|i: int, j: int| 0 <= i < j < t.len() implies bytes_before(
        #[trigger] key_of(t[i]),
        #[trigger] key_of(t[j]),
    ) by {
        assert(t[i] == s[i + 1] && t[j] == s[j + 1]);
    }
    let m = entries_map(s).remove(s[0].0);
    assert forall|a: Address| entries_map(t).contains_key(a) <==> m.contains_key(a) by {
        if entries_map(t).contains_key(a) {
            let j = choose|j: int| #[trigger] holds_at(t, j, a);
            assert(holds_at(s, j + 1, a));
            assert(bytes_before(key_of(s[0]), key_of(s[j + 1])));
            lemma_before_irreflexive(key_of(s[0]));
        }
        if m.contains_key(a) {
            let j = choose|j: int| #[trigger] holds_at(s, j, a);
            assert(j != 0);
            assert(holds_at(t, j - 1, a));
        }
    }
    assert forall|a: Address| entries_map(t).contains_key(a) implies entries_map(t)[a] == m[a] by {
        let j = choose|j: int| #[trigger] holds_at(t, j, a);
        assert(t[j] == s[j + 1]);
        lemma_lookup(t, j);
        lemma_lookup(s, j + 1);
        assert(bytes_before(key_of(s[0]), key_of(s[j + 1])));
        lemma_before_irreflexive(key_of(s[0]));
    }
    assert(entries_map(t) =~= m);
}

/// Two sorted lists that hold the same accounts by address are the same
/// list of addresses and accounts.
pub proof fn lemma_sorted_lists_canonical(s1: Seq<(Address, Account)>, s2: Seq<(Address, Account)>)
    requires
        strictly_sorted(s1),
        strictly_sorted(s2),
        entries_map(s1) == entries_map(s2),
    ensures
        entry_models(s1) == entry_models(s2),
    decreases s1.len(),
{
    if s1.len() == 0 || s2.len() == 0 {
        if s1.len() > 0 {
            lemma_lookup(s1, 0);
            lemma_absent(s2, s1[0].0);
        }
        if s2.len() > 0 {
            lemma_lookup(s2, 0);
            lemma_absent(s1, s2[0].0);
        }
        assert(entry_models(s1) =~= entry_models(s2));
    } else {
        let k1 = s1[0].0;
        let k2 = s2[0].0;
        lemma_lookup(s1, 0);
        lemma_lookup(s2, 0);
        if k1 != k2 {
            let j2 = choose|j: int| #[trigger] holds_at(s2, j, k1);
            let j1 = choose|j: int| #[trigger] holds_at(s1, j, k2);
            assert(bytes_before(key_of(s2[0]), key_of(s2[j2])));
            assert(bytes_before(key_of(s1[0]), key_of(s1[j1])));
            lemma_before_transitive(key_of(s1[0]), key_of(s2[0]), key_of(s1[0]));
            lemma_before_irreflexive(key_of(s1[0]));
        }
        lemma_drop_first(s1);
        lemma_drop_first(s2);
        lemma_sorted_lists_canonical(s1.drop_first(), s2.drop_first());
        assert(entry_models(s1) =~= seq![(s1[0].0, s1[0].1@)] + entry_models(s1.drop_first()));
        assert(entry_models(s2) =~= seq![(s2[0].0, s2[0].1@)] + entry_models(s2.drop_first()));
    }
}

} // verus!
