//! Pending transactions awaiting a block, keyed by their identifiers, with
//! the next nonce expected from each sender.

use vstd::prelude::*;
use vstd::set_lib::{lemma_int_range, lemma_len_subset, set_int_range};

use crate::crypto::keys::address::Address;
use crate::error::TransactionError;
use crate::interfaces::storable::Storable;
use crate::state::{account_or_empty, State};
use crate::transaction::Transaction;

verus! {

// ---------------------------------------------------------------------------
// Expected nonces: a list of (address, nonce) with distinct addresses.

/// Entry `i` holds the nonce of address `a`.
pub open spec fn nonce_at(s: Seq<(Address, u64)>, i: int, a: Address) -> bool {
    0 <= i < s.len() && s[i].0 == a
}

/// No address occurs twice.
pub open spec fn distinct_addresses(s: Seq<(Address, u64)>) -> bool {
    forall|i: int, j: int| 0 <= i < j < s.len() ==> #[trigger] s[i].0 != #[trigger] s[j].0
}

/// The expected nonces, by address.
pub open spec fn nonce_map(s: Seq<(Address, u64)>) -> Map<Address, u64> {
    Map::new(
        |a: Address| exists|i: int| #[trigger] nonce_at(s, i, a),
        |a: Address| s[choose|i: int| #[trigger] nonce_at(s, i, a)].1,
    )
}

proof fn lemma_nonce_lookup(s: Seq<(Address, u64)>, i: int)
    requires
        distinct_addresses(s),
        0 <= i < s.len(),
    ensures
        nonce_map(s).contains_key(s[i].0),
        nonce_map(s)[s[i].0] == s[i].1,
{
    assert(nonce_at(s, i, s[i].0));
    let j = choose|j: int| #[trigger] nonce_at(s, j, s[i].0);
    if j < i {
        assert(s[j].0 != s[i].0);
    } else if i < j {
        assert(s[i].0 != s[j].0);
    }
}

proof fn lemma_nonce_update(s: Seq<(Address, u64)>, i: int, v: u64)
    requires
        distinct_addresses(s),
        0 <= i < s.len(),
    ensures
        distinct_addresses(s.update(i, (s[i].0, v))),
        nonce_map(s.update(i, (s[i].0, v))) == nonce_map(s).insert(s[i].0, v),
{
    let t = s.update(i, (s[i].0, v));
    assert forall|j: int, k: int| 0 <= j < k < t.len() implies #[trigger] t[j].0 != #[trigger] t[k].0 by {
        assert(t[j].0 == s[j].0 && t[k].0 == s[k].0);
    }
    let m = nonce_map(s).insert(s[i].0, v);
    assert forall|a: Address| nonce_map(t).contains_key(a) <==> m.contains_key(a) by {
        if nonce_map(t).contains_key(a) {
            let j = choose|j: int| #[trigger] nonce_at(t, j, a);
            assert(nonce_at(s, j, a));
        }
        if nonce_map(s).contains_key(a) {
            let j = choose|j: int| #[trigger] nonce_at(s, j, a);
            assert(nonce_at(t, j, a));
        }
        if a == s[i].0 {
            assert(nonce_at(t, i, a));
        }
    }
    assert forall|a: Address| nonce_map(t).contains_key(a) implies nonce_map(t)[a] == m[a] by {
        let j = choose|j: int| #[trigger] nonce_at(t, j, a);
        lemma_nonce_lookup(t, j);
        if j != i {
            lemma_nonce_lookup(s, j);
        }
    }
    assert(nonce_map(t) =~= m);
}

proof fn lemma_nonce_push(s: Seq<(Address, u64)>, a: Address, v: u64)
    requires
        distinct_addresses(s),
        forall|i: int| 0 <= i < s.len() ==> s[i].0 != a,
    ensures
        distinct_addresses(s.push((a, v))),
        nonce_map(s.push((a, v))) == nonce_map(s).insert(a, v),
{
    let t = s.push((a, v));
    assert forall|j: int, k: int| 0 <= j < k < t.len() implies #[trigger] t[j].0 != #[trigger] t[k].0 by {
        if k < s.len() {
            assert(t[j] == s[j] && t[k] == s[k]);
        } else {
            assert(t[j] == s[j]);
        }
    }
    let m = nonce_map(s).insert(a, v);
    assert forall|b: Address| nonce_map(t).contains_key(b) <==> m.contains_key(b) by {
        if nonce_map(t).contains_key(b) {
            let j = choose|j: int| #[trigger] nonce_at(t, j, b);
            if j < s.len() {
                assert(nonce_at(s, j, b));
            }
        }
        if nonce_map(s).contains_key(b) {
            let j = choose|j: int| #[trigger] nonce_at(s, j, b);
            assert(nonce_at(t, j, b));
        }
        if b == a {
            assert(nonce_at(t, s.len() as int, b));
        }
    }
    assert forall|b: Address| nonce_map(t).contains_key(b) implies nonce_map(t)[b] == m[b] by {
        let j = choose|j: int| #[trigger] nonce_at(t, j, b);
        lemma_nonce_lookup(t, j);
        if j < s.len() {
            lemma_nonce_lookup(s, j);
        }
    }
    assert(nonce_map(t) =~= m);
}

// ---------------------------------------------------------------------------
// Pending transactions.

/// Some transaction of `mined` has the identifier of `t`.
pub open spec fn is_mined(t: Transaction, mined: Seq<Transaction>) -> bool {
    exists|j: int| 0 <= j < mined.len() && #[trigger] mined[j].id() == t.id()
}

/// The transactions of `p`, in order, that no transaction of `mined` shares
/// an identifier with.
pub open spec fn unmined(p: Seq<Transaction>, mined: Seq<Transaction>) -> Seq<Transaction>
    decreases p.len(),
{
    if p.len() == 0 {
        Seq::empty()
    } else if is_mined(p.last(), mined) {
        unmined(p.drop_last(), mined)
    } else {
        unmined(p.drop_last(), mined).push(p.last())
    }
}

/// Eviction keeps exactly the unmined transactions: none that remains is
/// mined, and every unmined transaction of `p` remains.
pub proof fn lemma_unmined_exact(p: Seq<Transaction>, mined: Seq<Transaction>)
    ensures
        forall|k: int| 0 <= k < unmined(p, mined).len() ==> !is_mined(#[trigger] unmined(p, mined)[k], mined),
        forall|i: int| 0 <= i < p.len() && !is_mined(#[trigger] p[i], mined) ==> unmined(p, mined).contains(p[i]),
        forall|k: int| 0 <= k < unmined(p, mined).len() ==> p.contains(#[trigger] unmined(p, mined)[k]),
    decreases p.len(),
{
    if p.len() > 0 {
        let q = p.drop_last();
        lemma_unmined_exact(q, mined);
        let u = unmined(p, mined);
        let uq = unmined(q, mined);
        assert forall|k: int| 0 <= k < u.len() implies !is_mined(#[trigger] u[k], mined) && p.contains(u[k]) by {
            if k < uq.len() {
                assert(u[k] == uq[k]);
                let w = choose|w: int| 0 <= w < q.len() && q[w] == uq[k];
                assert(p[w] == u[k]);
            } else {
                assert(u[k] == p.last());
                assert(p[p.len() - 1] == u[k]);
            }
        }
        assert forall|i: int| 0 <= i < p.len() && !is_mined(#[trigger] p[i], mined) implies u.contains(p[i]) by {
            if i < q.len() {
                assert(q[i] == p[i]);
                let w = choose|w: int| 0 <= w < uq.len() && uq[w] == q[i];
                assert(u[w] == uq[w]);
            } else {
                assert(u[u.len() - 1] == p[i]);
            }
        }
    }
}

/// Eviction goes by identifier alone: every transaction of `p` whose
/// identifier differs from those of all of `mined` stays, no transaction
/// that stays shares an identifier with one of `mined`, and nothing new
/// appears.
pub proof fn lemma_eviction_by_identifier(p: Seq<Transaction>, mined: Seq<Transaction>)
    ensures
        forall|i: int|
            0 <= i < p.len() && (forall|j: int| 0 <= j < mined.len() ==> #[trigger] mined[j].id() != p[i].id())
                ==> unmined(p, mined).contains(#[trigger] p[i]),
        forall|k: int, j: int|
            0 <= k < unmined(p, mined).len() && 0 <= j < mined.len() ==> #[trigger] unmined(p, mined)[k].id()
                != #[trigger] mined[j].id(),
        forall|k: int| 0 <= k < unmined(p, mined).len() ==> p.contains(#[trigger] unmined(p, mined)[k]),
{
    lemma_unmined_exact(p, mined);
    let u = unmined(p, mined);
    assert forall|i: int|
        0 <= i < p.len() && (forall|j: int| 0 <= j < mined.len() ==> #[trigger] mined[j].id() != p[i].id())
            implies u.contains(#[trigger] p[i]) by {
        assert(!is_mined(p[i], mined));
    }
    assert forall|k: int, j: int| 0 <= k < u.len() && 0 <= j < mined.len() implies #[trigger] u[k].id()
        != #[trigger] mined[j].id() by {
        assert(!is_mined(u[k], mined));
    }
}

/// The selection by fee: it has `min(limit, len)` transactions, all
/// pending, listed from the highest fee down; and every selected
/// transaction's fee is at least that of every pending transaction left out.
pub proof fn lemma_prioritized_by_fee(p: Seq<Transaction>, limit: usize, r: Seq<Transaction>)
    requires
        prioritized(p, limit, r),
    ensures
        r.len() == (if limit < p.len() { limit as int } else { p.len() as int }),
        forall|k: int| 0 <= k < r.len() ==> p.contains(#[trigger] r[k]),
        forall|k1: int, k2: int| 0 <= k1 < k2 < r.len() ==> #[trigger] r[k1].fee >= #[trigger] r[k2].fee,
        forall|i: int, k: int|
            0 <= i < p.len() && !r.contains(#[trigger] p[i]) && 0 <= k < r.len() ==> #[trigger] r[k].fee >= p[i].fee,
{
    let picks = choose|picks: Seq<int>|
        #![trigger priority_prefix(p, picks)]
        picks.len() == (if limit < p.len() { limit as int } else { p.len() as int })
            && priority_prefix(p, picks) && r == picks.map_values(|i: int| p[i]);
    assert forall|k: int| 0 <= k < r.len() implies p.contains(#[trigger] r[k]) by {
        assert(0 <= picks[k] < p.len());
        assert(r[k] == p[picks[k]]);
    }
    assert forall|k1: int, k2: int| 0 <= k1 < k2 < r.len() implies #[trigger] r[k1].fee >= #[trigger] r[k2].fee by {
        assert(ranks_before(p, picks[k1], picks[k2]));
    }
    assert forall|i: int, k: int|
        0 <= i < p.len() && !r.contains(#[trigger] p[i]) && 0 <= k < r.len() implies #[trigger] r[k].fee >= p[i].fee by {
        if picks.contains(i) {
            let w = choose|w: int| 0 <= w < picks.len() && picks[w] == i;
            assert(r[w] == p[i]);
        }
        assert(ranks_before(p, picks[k], i));
    }
}

/// `p` with `tx` added: it replaces the transaction with the same identifier
/// in place, or else joins the end.
pub open spec fn with_pending(p: Seq<Transaction>, tx: Transaction) -> Seq<Transaction> {
    if exists|i: int| 0 <= i < p.len() && #[trigger] p[i].id() == tx.id() {
        p.update(choose|i: int| 0 <= i < p.len() && #[trigger] p[i].id() == tx.id(), tx)
    } else {
        p.push(tx)
    }
}

/// Position `i` of `p` comes before position `j` in fee priority: a higher
/// fee, or an equal fee and an earlier position.
pub open spec fn ranks_before(p: Seq<Transaction>, i: int, j: int) -> bool {
    p[i].fee > p[j].fee || (p[i].fee == p[j].fee && i < j)
}

/// `picks` are the first `picks.len()` positions of `p` in fee priority,
/// listed in that order.
pub open spec fn priority_prefix(p: Seq<Transaction>, picks: Seq<int>) -> bool {
    &&& forall|t: int| 0 <= t < picks.len() ==> 0 <= #[trigger] picks[t] < p.len()
    &&& forall|t1: int, t2: int| 0 <= t1 < t2 < picks.len() ==> ranks_before(p, #[trigger] picks[t1], #[trigger] picks[t2])
    &&& forall|i: int, t: int|
        #![trigger ranks_before(p, picks[t], i)]
        0 <= i < p.len() && !picks.contains(i) && 0 <= t < picks.len() ==> ranks_before(p, picks[t], i)
}

/// `r` is the first `min(limit, p.len())` transactions of `p` in fee
/// priority, in that order.
pub open spec fn prioritized(p: Seq<Transaction>, limit: usize, r: Seq<Transaction>) -> bool {
    exists|picks: Seq<int>|
        #![trigger priority_prefix(p, picks)]
        picks.len() == (if limit < p.len() { limit as int } else { p.len() as int })
            && priority_prefix(p, picks) && r == picks.map_values(|i: int| p[i])
}

/// A list of fewer than `n` positions misses one of `0..n`.
proof fn lemma_position_left(picks: Seq<int>, n: int)
    requires
        picks.len() < n,
    ensures
        exists|i: int| 0 <= i < n && !picks.contains(i),
{
    if forall|i: int| 0 <= i < n ==> picks.contains(i) {
        lemma_int_range(0, n);
        assert(set_int_range(0, n).subset_of(picks.to_set()));
        picks.lemma_cardinality_of_set();
        lemma_len_subset(set_int_range(0, n), picks.to_set());
    }
}

/// The transactions of stored (identifier, transaction) entries.
pub open spec fn transactions_of(s: Seq<(crate::crypto::hash::Hash, Transaction)>) -> Seq<Transaction> {
    Seq::new(s.len(), |i: int| s[i].1)
}

/// The next nonce the pool expects from `sender`: the one it recorded, or
/// else the sender's nonce in the state.
pub open spec fn expected_nonce(nonces: Map<Address, u64>, accounts: Map<Address, crate::account::AccountModel>, sender: Address) -> u64 {
    if nonces.contains_key(sender) {
        nonces[sender]
    } else {
        account_or_empty(accounts, sender).nonce
    }
}

/// Why the pool refuses `tx`, by the first reason that holds: a bad
/// signature, an unexpected nonce, a cost that overflows, or a balance in
/// the state that does not cover amount and fee.
pub open spec fn admission_error(nonces: Map<Address, u64>, accounts: Map<Address, crate::account::AccountModel>, tx: Transaction) -> Option<TransactionError> {
    let sender = Address(tx.sender);
    let expected = expected_nonce(nonces, accounts, sender);
    let balance = account_or_empty(accounts, sender).balance;
    if !tx.signature_valid() {
        Some(TransactionError::InvalidSignature(crate::crypto::error::CryptoError::VerificationFailed))
    } else if tx.nonce != expected {
        Some(TransactionError::InvalidNonce { expected, got: tx.nonce })
    } else if tx.amount + tx.fee > u64::MAX {
        Some(TransactionError::CostOverflow)
    } else if balance < tx.amount + tx.fee {
        Some(TransactionError::InsufficentBalance { required: (tx.amount + tx.fee) as u64, available: balance })
    } else {
        None
    }
}

/// The pool expects from the sender of every transaction of `p` a nonce
/// above that transaction's.
pub open spec fn nonces_ahead(p: Seq<Transaction>, nonces: Map<Address, u64>) -> bool {
    forall|i: int|
        0 <= i < p.len() ==> {
            &&& nonces.contains_key(Address(#[trigger] p[i].sender))
            &&& p[i].nonce < nonces[Address(p[i].sender)]
        }
}

/// Every transaction of `with_pending(p, tx)` is `tx` or one of `p`.
proof fn lemma_with_pending_members(p: Seq<Transaction>, tx: Transaction)
    ensures
        forall|k: int| 0 <= k < with_pending(p, tx).len() ==> #[trigger] with_pending(p, tx)[k] == tx || p.contains(with_pending(p, tx)[k]),
{
    let w = with_pending(p, tx);
    assert forall|k: int| 0 <= k < w.len() implies #[trigger] w[k] == tx || p.contains(w[k]) by {
        if w[k] != tx {
            if k < p.len() {
                assert(w[k] == p[k]);
            }
        }
    }
}

/// Whether some stored identifier equals `id`.
fn id_listed(ids: &Vec<crate::crypto::hash::Hash>, id: &crate::crypto::hash::Hash) -> (r: bool)
    ensures
        r == exists|k: int| 0 <= k < ids@.len() && #[trigger] ids@[k].0@ == id.0@,
{
    let n = ids.len();
    let mut k: usize = 0;
    while k < n
        invariant
            0 <= k <= n,
            n == ids@.len(),
            forall|j: int| 0 <= j < k ==> #[trigger] ids@[j].0@ != id.0@,
        decreases n - k,
    {
        if ids[k] == *id {
            return true;
        }
        k += 1;
    }
    false
}

/// Transactions awaiting a block, with the next nonce expected from each
/// sender that has one pending.
pub struct Mempool {
    pending_transactions: Vec<(crate::crypto::hash::Hash, Transaction)>,
    account_nonces: Vec<(Address, u64)>,
}

impl Mempool {
    /// Each pending transaction is stored under its identifier, no
    /// identifier twice, and no sender has two expected nonces.
    spec fn stored_well(&self) -> bool {
        &&& forall|i: int| 0 <= i < self.pending_transactions@.len() ==> #[trigger] self.pending_transactions@[i].0.0@ == self.pending_transactions@[i].1.id()
        &&& forall|i: int, j: int|
            0 <= i < j < self.pending_transactions@.len() ==> #[trigger] self.pending_transactions@[i].1.id() != #[trigger] self.pending_transactions@[j].1.id()
        &&& distinct_addresses(self.account_nonces@)
    }

    /// The pool is stored well, and the pool expects from the sender of
    /// every pending transaction a nonce above that transaction's.
    pub closed spec fn wf(&self) -> bool {
        &&& self.stored_well()
        &&& nonces_ahead(self.pending(), self.expected_nonces())
    }

    /// The pending transactions, in the order they were first added.
    pub closed spec fn pending(&self) -> Seq<Transaction> {
        transactions_of(self.pending_transactions@)
    }

    /// The next nonce expected from each sender with a pending transaction.
    pub closed spec fn expected_nonces(&self) -> Map<Address, u64> {
        nonce_map(self.account_nonces@)
    }

    /// An empty pool.
    pub fn new() -> (r: Mempool)
        ensures
            r.wf(),
            r.pending() == Seq::<Transaction>::empty(),
            r.expected_nonces() == Map::<Address, u64>::empty(),
    {
        let r = Mempool { pending_transactions: Vec::new(), account_nonces: Vec::new() };
        assert(r.pending() =~= Seq::<Transaction>::empty());
        assert(r.expected_nonces() =~= Map::<Address, u64>::empty());
        r
    }

    /// The number of pending transactions.
    pub fn len(&self) -> (r: usize)
        ensures
            r == self.pending().len(),
    {
        self.pending_transactions.len()
    }

    /// Whether nothing is pending.
    pub fn is_empty(&self) -> (r: bool)
        ensures
            r == (self.pending().len() == 0),
    {
        self.pending_transactions.len() == 0
    }

    /// The expected nonce of `sender`, if one is recorded.
    fn lookup_nonce(&self, sender: &Address) -> (r: Option<u64>)
        requires
            self.stored_well(),
        ensures
            self.expected_nonces().contains_key(*sender) ==> r == Some(self.expected_nonces()[*sender]),
            !self.expected_nonces().contains_key(*sender) ==> r is None,
    {
        let n = self.account_nonces.len();
        let mut i: usize = 0;
        while i < n
            invariant
                0 <= i <= n,
                n == self.account_nonces@.len(),
                self.stored_well(),
                forall|j: int| 0 <= j < i ==> self.account_nonces@[j].0 != *sender,
            decreases n - i,
        {
            if self.account_nonces[i].0 == *sender {
                proof {
                    assert(self.account_nonces@[i as int].0.0.0 == sender.0.0);
                    lemma_nonce_lookup(self.account_nonces@, i as int);
                }
                return Some(self.account_nonces[i].1);
            }
            i += 1;
        }
        None
    }

    /// Records `nonce` as the next expected from `sender`.
    fn record_nonce(&mut self, sender: Address, nonce: u64)
        requires
            old(self).stored_well(),
        ensures
            final(self).stored_well(),
            final(self).expected_nonces() == old(self).expected_nonces().insert(sender, nonce),
            final(self).pending() == old(self).pending(),
    {
        let n = self.account_nonces.len();
        let mut i: usize = 0;
        while i < n
            invariant
                0 <= i <= n,
                n == self.account_nonces@.len(),
                self.stored_well(),
                *self == *old(self),
                forall|j: int| 0 <= j < i ==> self.account_nonces@[j].0 != sender,
            decreases n - i,
        {
            if self.account_nonces[i].0 == sender {
                proof {
                    assert(self.account_nonces@[i as int].0.0.0 == sender.0.0);
                    lemma_nonce_update(self.account_nonces@, i as int, nonce);
                }
                self.account_nonces[i] = (sender, nonce);
                return;
            }
            i += 1;
        }
        proof {
            lemma_nonce_push(self.account_nonces@, sender, nonce);
        }
        self.account_nonces.push((sender, nonce));
    }

    /// Stores `tx` under `id`, replacing the transaction with that identifier.
    fn store_pending(&mut self, id: crate::crypto::hash::Hash, tx: Transaction)
        requires
            old(self).stored_well(),
            id.0@ == tx.id(),
        ensures
            final(self).stored_well(),
            final(self).pending() == with_pending(old(self).pending(), tx),
            final(self).expected_nonces() == old(self).expected_nonces(),
    {
        let ghost p = self.pending();
        let n = self.pending_transactions.len();
        let mut i: usize = 0;
        while i < n
            invariant
                0 <= i <= n,
                n == self.pending_transactions@.len(),
                p == self.pending(),
                self.stored_well(),
                *self == *old(self),
                id.0@ == tx.id(),
                forall|j: int| 0 <= j < i ==> #[trigger] p[j].id() != tx.id(),
            decreases n - i,
        {
            let matches = self.pending_transactions[i].0 == id;
            assert(p[i as int] == self.pending_transactions@[i as int].1);
            if matches {
                proof {
                    assert(p[i as int].id() == tx.id());
                    assert forall|j: int| 0 <= j < p.len() && #[trigger] p[j].id() == tx.id() implies j == i by {
                        if j < i {
                            assert(self.pending_transactions@[j].1.id() != self.pending_transactions@[i as int].1.id());
                        } else if j > i {
                            assert(self.pending_transactions@[i as int].1.id() != self.pending_transactions@[j].1.id());
                        }
                    }
                }
                self.pending_transactions[i] = (id, tx);
                proof {
                    assert(self.pending() =~= with_pending(p, tx));
                }
                return;
            }
            i += 1;
        }
        self.pending_transactions.push((id, tx));
        proof {
            assert(self.pending() =~= with_pending(p, tx));
            assert forall|j: int, k: int| 0 <= j < k < self.pending_transactions@.len() implies
                #[trigger] self.pending_transactions@[j].1.id() != #[trigger] self.pending_transactions@[k].1.id() by {
                if k == n {
                    assert(p[j].id() != tx.id());
                } else {
                    assert(old(self).pending_transactions@[j].1.id() != old(self).pending_transactions@[k].1.id());
                }
            }
        }
    }

    /// Admits `tx` when its signature verifies, its nonce is the next one
    /// expected from its sender, and the sender's balance in `state` covers
    /// amount and fee; it then joins the pool (replacing one with the same
    /// identifier) and the sender's expected nonce moves past it. A refused
    /// transaction changes nothing.
    pub fn add_transaction(&mut self, tx: Transaction, state: &State) -> (r: Result<(), TransactionError>)
        requires
            old(self).wf(),
            state.wf(),
            tx.nonce == u64::MAX ==> admission_error(old(self).expected_nonces(), state.accounts(), tx) is Some,
        ensures
            final(self).wf(),
            admission_error(old(self).expected_nonces(), state.accounts(), tx) matches Some(e) ==> {
                &&& r == Err::<(), TransactionError>(e)
                &&& final(self).pending() == old(self).pending()
                &&& final(self).expected_nonces() == old(self).expected_nonces()
            },
            admission_error(old(self).expected_nonces(), state.accounts(), tx) is None ==> {
                &&& r is Ok
                &&& final(self).pending() == with_pending(old(self).pending(), tx)
                &&& final(self).expected_nonces() == old(self).expected_nonces().insert(
                    Address(tx.sender),
                    (tx.nonce + 1) as u64,
                )
                &&& !old(self).pending().contains(tx)
                &&& (forall|i: int| 0 <= i < old(self).pending().len() ==> #[trigger] old(self).pending()[i].id() != tx.id())
                    ==> final(self).pending().len() == old(self).pending().len() + 1
            },
    {
        match tx.verify() {
            Ok(()) => {},
            Err(e) => {
                return Err(e);
            },
        }
        let sender = Address::from(tx.sender);
        let state_nonce = state.get_nonce(&sender);
        let exptected_nonce = match self.lookup_nonce(&sender) {
            Some(n) => n,
            None => state_nonce,
        };
        if tx.nonce != exptected_nonce {
            return Err(TransactionError::InvalidNonce { expected: exptected_nonce, got: tx.nonce });
        }
        let current_balance = state.get_balance(&sender);
        let required = match tx.amount.checked_add(tx.fee) {
            Some(total) => total,
            None => {
                return Err(TransactionError::CostOverflow);
            },
        };
        if current_balance < required {
            return Err(TransactionError::InsufficentBalance { required, available: current_balance });
        }
        let tx_hash = tx.hash();
        let ghost p = self.pending();
        let ghost n0 = self.expected_nonces();
        proof {
            if p.contains(tx) {
                let j = choose|j: int| 0 <= j < p.len() && p[j] == tx;
                assert(n0.contains_key(Address(p[j].sender)));
            }
        }
        self.record_nonce(sender, tx.nonce + 1);
        self.store_pending(tx_hash, tx);
        proof {
            let w = with_pending(p, tx);
            let n1 = n0.insert(sender, (tx.nonce + 1) as u64);
            lemma_with_pending_members(p, tx);
            assert forall|k: int| 0 <= k < w.len() implies {
                &&& n1.contains_key(Address(#[trigger] w[k].sender))
                &&& w[k].nonce < n1[Address(w[k].sender)]
            } by {
                if w[k] != tx {
                    let j = choose|j: int| 0 <= j < p.len() && p[j] == w[k];
                    assert(n0.contains_key(Address(p[j].sender)));
                }
            }
        }
        Ok(())
    }

    /// The first `min(limit, len)` pending transactions in fee priority:
    /// higher fee first, and among equal fees the one added earlier.
    pub fn get_prioritized_transactions(&self, limit: usize) -> (r: Vec<Transaction>)
        ensures
            prioritized(self.pending(), limit, r@),
            r@.len() == (if limit < self.pending().len() { limit as int } else { self.pending().len() as int }),
            forall|k: int| 0 <= k < r@.len() ==> self.pending().contains(#[trigger] r@[k]),
            forall|k1: int, k2: int| 0 <= k1 < k2 < r@.len() ==> #[trigger] r@[k1].fee >= #[trigger] r@[k2].fee,
            forall|i: int, k: int|
                0 <= i < self.pending().len() && !r@.contains(#[trigger] self.pending()[i]) && 0 <= k < r@.len()
                    ==> #[trigger] r@[k].fee >= self.pending()[i].fee,
    {
        let ghost p = self.pending();
        let n = self.pending_transactions.len();
        let count = if limit < n { limit } else { n };
        let mut taken: Vec<bool> = Vec::new();
        let mut k: usize = 0;
        while k < n
            invariant
                0 <= k <= n,
                taken@.len() == k,
                forall|j: int| 0 <= j < k ==> !taken@[j],
            decreases n - k,
        {
            taken.push(false);
            k += 1;
        }
        let mut result: Vec<Transaction> = Vec::new();
        let ghost mut picks: Seq<int> = Seq::empty();
        let mut t: usize = 0;
        while t < count
            invariant
                0 <= t <= count,
                count <= n,
                n == p.len(),
                p == self.pending(),
                taken@.len() == n,
                picks.len() == t,
                forall|i: int| 0 <= i < n ==> (taken@[i] <==> picks.contains(i)),
                priority_prefix(p, picks),
                result@ == picks.map_values(|i: int| p[i]),
            decreases count - t,
        {
            let mut best: usize = n;
            let mut i: usize = 0;
            while i < n
                invariant
                    0 <= i <= n,
                    n == p.len(),
                    p == self.pending(),
                    taken@.len() == n,
                    best <= n,
                    best == n ==> forall|j: int| 0 <= j < i ==> taken@[j],
                    best < n ==> {
                        &&& best < i
                        &&& !taken@[best as int]
                        &&& forall|j: int| 0 <= j < i && !taken@[j] && j != best ==> ranks_before(p, best as int, j)
                    },
                decreases n - i,
            {
                if !taken[i] {
                    if best == n || self.pending_transactions[i].1.fee > self.pending_transactions[best].1.fee {
                        best = i;
                    }
                }
                i += 1;
            }
            if best == n {
                proof {
                    lemma_position_left(picks, n as int);
                }
                assert(false);
            }
            proof {
                assert(!picks.contains(best as int));
                let new_picks = picks.push(best as int);
                assert forall|t1: int, t2: int| 0 <= t1 < t2 < new_picks.len() implies ranks_before(
                    p,
                    #[trigger] new_picks[t1],
                    #[trigger] new_picks[t2],
                ) by {
                    if t2 == picks.len() {
                        assert(ranks_before(p, picks[t1], best as int));
                    } else {
                        assert(ranks_before(p, picks[t1], picks[t2]));
                    }
                }
                assert forall|j: int, t3: int|
                    #![trigger ranks_before(p, new_picks[t3], j)]
                    0 <= j < p.len() && !new_picks.contains(j) && 0 <= t3 < new_picks.len() implies ranks_before(
                    p,
                    new_picks[t3],
                    j,
                ) by {
                    if picks.contains(j) {
                        let w = choose|w: int| 0 <= w < picks.len() && picks[w] == j;
                        assert(new_picks[w] == j);
                    }
                    assert(new_picks[picks.len() as int] == best);
                    if t3 < picks.len() {
                        assert(ranks_before(p, picks[t3], j));
                    } else {
                        assert(j != best);
                        assert(!taken@[j]);
                    }
                }
                assert forall|t4: int| 0 <= t4 < new_picks.len() implies 0 <= #[trigger] new_picks[t4] < p.len() by {
                    if t4 < picks.len() {
                        assert(0 <= picks[t4] < p.len());
                    }
                }
            }
            taken.set(best, true);
            result.push(self.pending_transactions[best].1);
            proof {
                let old_picks = picks;
                picks = picks.push(best as int);
                assert forall|i2: int| 0 <= i2 < n implies (taken@[i2] <==> picks.contains(i2)) by {
                    if i2 != best {
                        assert(picks.contains(i2) <==> old_picks.contains(i2)) by {
                            if picks.contains(i2) {
                                let w = choose|w: int| 0 <= w < picks.len() && picks[w] == i2;
                                assert(w < old_picks.len());
                                assert(old_picks[w] == i2);
                            }
                            if old_picks.contains(i2) {
                                let w = choose|w: int| 0 <= w < old_picks.len() && old_picks[w] == i2;
                                assert(picks[w] == i2);
                            }
                        }
                    } else {
                        assert(picks[picks.len() - 1] == i2);
                    }
                }
                assert(result@ =~= picks.map_values(|i: int| p[i]));
            }
            t += 1;
        }
        assert(priority_prefix(p, picks));
        proof {
            lemma_prioritized_by_fee(p, limit, result@);
        }
        result
    }

    /// Drops every pending transaction whose identifier is that of a
    /// transaction in `mined_tsx`; the rest keep their order.
    pub fn remove_mined_transactions(&mut self, mined_tsx: &[Transaction])
        requires
            old(self).wf(),
        ensures
            final(self).wf(),
            final(self).pending() == unmined(old(self).pending(), mined_tsx@),
            final(self).expected_nonces() == old(self).expected_nonces(),
            forall|i: int|
                0 <= i < old(self).pending().len() && (forall|j: int|
                    0 <= j < mined_tsx@.len() ==> #[trigger] mined_tsx@[j].id() != old(self).pending()[i].id())
                    ==> final(self).pending().contains(#[trigger] old(self).pending()[i]),
            forall|k: int, j: int|
                0 <= k < final(self).pending().len() && 0 <= j < mined_tsx@.len()
                    ==> #[trigger] final(self).pending()[k].id() != #[trigger] mined_tsx@[j].id(),
            forall|k: int| 0 <= k < final(self).pending().len() ==> old(self).pending().contains(#[trigger] final(self).pending()[k]),
    {
        proof {
            lemma_eviction_by_identifier(old(self).pending(), mined_tsx@);
        }
        let m = mined_tsx.len();
        let mut ids: Vec<crate::crypto::hash::Hash> = Vec::new();
        let mut j: usize = 0;
        while j < m
            invariant
                0 <= j <= m,
                m == mined_tsx@.len(),
                ids@.len() == j,
                forall|k: int| 0 <= k < j ==> #[trigger] ids@[k].0@ == mined_tsx@[k].id(),
            decreases m - j,
        {
            let tx_hash = mined_tsx[j].hash();
            ids.push(tx_hash);
            j += 1;
        }
        let ghost entries = self.pending_transactions@;
        let ghost p = self.pending();
        let n = self.pending_transactions.len();
        let mut kept: Vec<(crate::crypto::hash::Hash, Transaction)> = Vec::new();
        let ghost mut origin: Seq<int> = Seq::empty();
        let mut i: usize = 0;
        while i < n
            invariant
                0 <= i <= n,
                n == entries.len(),
                entries == self.pending_transactions@,
                p == transactions_of(entries),
                self.wf(),
                *self == *old(self),
                m == mined_tsx@.len(),
                ids@.len() == m,
                forall|k: int| 0 <= k < m ==> #[trigger] ids@[k].0@ == mined_tsx@[k].id(),
                transactions_of(kept@) == unmined(p.subrange(0, i as int), mined_tsx@),
                origin.len() == kept@.len(),
                forall|k: int| 0 <= k < origin.len() ==> 0 <= #[trigger] origin[k] < i && kept@[k] == entries[origin[k]],
                forall|k1: int, k2: int| 0 <= k1 < k2 < origin.len() ==> #[trigger] origin[k1] < #[trigger] origin[k2],
            decreases n - i,
        {
            let entry = self.pending_transactions[i];
            let listed = id_listed(&ids, &entry.0);
            proof {
                let sub = p.subrange(0, i + 1);
                assert(sub.drop_last() =~= p.subrange(0, i as int));
                assert(sub.last() == entry.1);
                assert(entry.0.0@ == entry.1.id());
                if listed {
                    let k = choose|k: int| 0 <= k < ids@.len() && #[trigger] ids@[k].0@ == entry.0.0@;
                    assert(mined_tsx@[k].id() == entry.1.id());
                    assert(is_mined(entry.1, mined_tsx@));
                } else {
                    assert forall|k: int| 0 <= k < mined_tsx@.len() implies #[trigger] mined_tsx@[k].id() != entry.1.id() by {
                        assert(ids@[k].0@ != entry.0.0@);
                    }
                    assert(!is_mined(entry.1, mined_tsx@));
                }
            }
            if !listed {
                kept.push(entry);
                proof {
                    origin = origin.push(i as int);
                    assert(transactions_of(kept@) =~= unmined(p.subrange(0, i + 1), mined_tsx@));
                }
            }
            i += 1;
        }
        assert(p.subrange(0, n as int) =~= p);
        proof {
            assert forall|k: int| 0 <= k < kept@.len() implies #[trigger] kept@[k].0.0@ == kept@[k].1.id() by {
                assert(kept@[k] == entries[origin[k]]);
            }
            assert forall|k1: int, k2: int| 0 <= k1 < k2 < kept@.len() implies #[trigger] kept@[k1].1.id() != #[trigger] kept@[k2].1.id() by {
                assert(origin[k1] < origin[k2]);
                assert(kept@[k1] == entries[origin[k1]]);
                assert(kept@[k2] == entries[origin[k2]]);
                assert(entries[origin[k1]].1.id() != entries[origin[k2]].1.id());
            }
        }
        self.pending_transactions = kept;
        proof {
            let u = unmined(p, mined_tsx@);
            lemma_unmined_exact(p, mined_tsx@);
            assert forall|k: int| 0 <= k < u.len() implies {
                &&& self.expected_nonces().contains_key(Address(#[trigger] u[k].sender))
                &&& u[k].nonce < self.expected_nonces()[Address(u[k].sender)]
            } by {
                assert(p.contains(u[k]));
                let j = choose|j: int| 0 <= j < p.len() && p[j] == u[k];
                assert(old(self).expected_nonces().contains_key(Address(p[j].sender)));
            }
        }
    }
}

} // verus!
