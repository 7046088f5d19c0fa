//! The world state: accounts by address, the height of the last applied
//! block and its digest.

use vstd::prelude::*;

use crate::account::{saturating_sum, Account, AccountModel};
use crate::block::Block;
use crate::crypto::error::CryptoError;
use crate::crypto::hash::{sha256_digest, zero_bytes32};
use crate::crypto::keys::address::Address;
use crate::encoding::{push_bytes, push_u64_le, u64_le};
use crate::error::{StateError, TransactionError};
use crate::interfaces::account::IAccount;
use crate::state::entries::{
    entries_map, entry_models, key_of, lemma_absent, lemma_insert, lemma_lookup,
    lemma_sorted_lists_canonical, lemma_update, strictly_sorted,
};
use crate::state::order::{
    bytes_before, lemma_before_irreflexive, lemma_before_transitive, locate, KeyPosition,
};
use crate::text::hex_text;
use crate::transaction::Transaction;

pub mod entries;
pub mod order;

verus! {

/// The account held at `a`, or the empty account where there is none.
pub open spec fn account_or_empty(m: Map<Address, AccountModel>, a: Address) -> AccountModel {
    if m.contains_key(a) {
        m[a]
    } else {
        AccountModel { balance: 0, nonce: 0 }
    }
}

/// `m` with `amount` credited to `a` (saturating), creating the account
/// where there is none.
pub open spec fn credited(m: Map<Address, AccountModel>, a: Address, amount: u64) -> Map<Address, AccountModel> {
    let acct = account_or_empty(m, a);
    m.insert(a, AccountModel { balance: saturating_sum(acct.balance, amount), nonce: acct.nonce })
}

/// Whether applying `tx` to the accounts `m` is refused: a zero amount, a
/// bad signature, an unknown sender, a cost that overflows, or a balance
/// that does not cover amount and fee.
pub open spec fn transfer_refused(m: Map<Address, AccountModel>, tx: Transaction) -> bool {
    let sender = Address(tx.sender);
    ||| tx.amount == 0
    ||| !tx.signature_valid()
    ||| !m.contains_key(sender)
    ||| tx.amount + tx.fee > u64::MAX
    ||| m[sender].balance < tx.amount + tx.fee
}

/// `e` is the error with which applying `tx` to `m` is refused, by the
/// first reason that holds.
pub open spec fn transfer_error(m: Map<Address, AccountModel>, tx: Transaction, e: StateError) -> bool {
    let sender = Address(tx.sender);
    if tx.amount == 0 {
        e == StateError::InvalidTransaction(TransactionError::ZeroAmount)
    } else if !tx.signature_valid() {
        e == StateError::InvalidTransaction(TransactionError::InvalidSignature(CryptoError::VerificationFailed))
    } else if !m.contains_key(sender) {
        e matches StateError::AccountNotFound { address } && address@ == hex_text(tx.sender.0@)
    } else if tx.amount + tx.fee > u64::MAX {
        e == StateError::InvalidTransaction(TransactionError::CostOverflow)
    } else if m[sender].balance < tx.amount + tx.fee {
        e == StateError::InsufficientBalance { available: m[sender].balance, required: (tx.amount + tx.fee) as u64 }
    } else {
        false
    }
}

/// The accounts after `tx` is applied to `m`: the sender pays amount and fee
/// and its nonce advances (saturating); then the receiver is credited the
/// amount.
pub open spec fn transfer_applied(m: Map<Address, AccountModel>, tx: Transaction) -> Map<Address, AccountModel> {
    let sender = Address(tx.sender);
    let debited = m.insert(
        sender,
        AccountModel {
            balance: (m[sender].balance - tx.amount - tx.fee) as u64,
            nonce: saturating_sum(m[sender].nonce, 1),
        },
    );
    credited(debited, Address(tx.receiver), tx.amount)
}

/// Crediting `x` to `a` adds `x` (saturating) to `a`'s balance, leaves
/// `a`'s nonce as it was, and leaves every other address's account alone.
pub proof fn lemma_credit_effect(m: Map<Address, AccountModel>, a: Address, x: u64)
    ensures
        credited(m, a, x).contains_key(a),
        credited(m, a, x)[a].balance == saturating_sum(account_or_empty(m, a).balance, x),
        credited(m, a, x)[a].nonce == account_or_empty(m, a).nonce,
        forall|b: Address| b != a ==> account_or_empty(credited(m, a, x), b) == account_or_empty(m, b),
        forall|b: Address| #[trigger] credited(m, a, x).contains_key(b) <==> (m.contains_key(b) || b == a),
{
}

/// An accepted transfer between two addresses takes amount and fee from
/// the sender and advances its nonce (saturating), gives the amount to the
/// receiver (saturating) without touching the receiver's nonce, and leaves
/// every other account alone. A transfer to oneself costs only the fee.
pub proof fn lemma_transfer_effect(m: Map<Address, AccountModel>, tx: Transaction)
    requires
        !transfer_refused(m, tx),
    ensures
        ({
            let s = Address(tx.sender);
            let rcv = Address(tx.receiver);
            let after = transfer_applied(m, tx);
            &&& rcv != s ==> account_or_empty(after, s) == AccountModel {
                balance: (m[s].balance - tx.amount - tx.fee) as u64,
                nonce: saturating_sum(m[s].nonce, 1),
            }
            &&& rcv != s ==> account_or_empty(after, rcv) == AccountModel {
                balance: saturating_sum(account_or_empty(m, rcv).balance, tx.amount),
                nonce: account_or_empty(m, rcv).nonce,
            }
            &&& rcv == s ==> account_or_empty(after, s) == AccountModel {
                balance: saturating_sum((m[s].balance - tx.amount - tx.fee) as u64, tx.amount),
                nonce: saturating_sum(m[s].nonce, 1),
            }
            &&& forall|b: Address| b != s && b != rcv ==> account_or_empty(after, b) == account_or_empty(m, b)
        }),
{
}

/// The block loop over the first `n` transactions of `txs`, from accounts
/// `m`: (accounts, fees collected, index at which it stopped or -1, whether
/// that stop was a refusal). It stops at the first refused transaction,
/// leaving the accounts as they were before it, or at the first fee that
/// does not fit the running `u64` total, after applying that transaction.
pub open spec fn block_run(m: Map<Address, AccountModel>, txs: Seq<Transaction>, n: nat) -> (Map<Address, AccountModel>, int, int, bool)
    decreases n,
{
    if n == 0 {
        (m, 0, -1, false)
    } else {
        let prev = block_run(m, txs, (n - 1) as nat);
        let tx = txs[n - 1];
        if prev.2 >= 0 {
            prev
        } else if transfer_refused(prev.0, tx) {
            (prev.0, prev.1, n - 1, true)
        } else if prev.1 + tx.fee > u64::MAX {
            (transfer_applied(prev.0, tx), prev.1, n - 1, false)
        } else {
            (transfer_applied(prev.0, tx), prev.1 + tx.fee, -1, false)
        }
    }
}

/// Once the block loop has stopped, later transactions change nothing.
pub proof fn lemma_block_run_stopped(m: Map<Address, AccountModel>, txs: Seq<Transaction>, k: nat, n: nat)
    requires
        k <= n,
        block_run(m, txs, k).2 >= 0,
    ensures
        block_run(m, txs, n) == block_run(m, txs, k),
    decreases n,
{
    if n > k {
        lemma_block_run_stopped(m, txs, k, (n - 1) as nat);
    }
}

/// The block loop's fee total stays within `0..=u64::MAX` while it runs.
pub proof fn lemma_block_run_fees(m: Map<Address, AccountModel>, txs: Seq<Transaction>, n: nat)
    ensures
        0 <= block_run(m, txs, n).1 <= u64::MAX,
    decreases n,
{
    if n > 0 {
        lemma_block_run_fees(m, txs, (n - 1) as nat);
    }
}

/// The fees of `txs`, summed.
pub open spec fn fees_of(txs: Seq<Transaction>) -> int
    decreases txs.len(),
{
    if txs.len() == 0 {
        0
    } else {
        fees_of(txs.drop_last()) + txs.last().fee
    }
}

/// While the block loop runs, it has collected exactly the fees of the
/// transactions it went over.
pub proof fn lemma_block_run_collects_fees(m: Map<Address, AccountModel>, txs: Seq<Transaction>, n: nat)
    requires
        n <= txs.len(),
        block_run(m, txs, n).2 < 0,
    ensures
        block_run(m, txs, n).1 == fees_of(txs.subrange(0, n as int)),
    decreases n,
{
    if n > 0 {
        let prev = block_run(m, txs, (n - 1) as nat);
        if prev.2 >= 0 {
            assert(block_run(m, txs, n) == prev);
        } else {
            lemma_block_run_collects_fees(m, txs, (n - 1) as nat);
            assert(txs.subrange(0, n as int).drop_last() =~= txs.subrange(0, n - 1));
        }
    } else {
        assert(txs.subrange(0, 0) =~= Seq::<Transaction>::empty());
    }
}

/// The stored form of one account: its address with 8-byte length, balance,
/// nonce.
pub open spec fn account_record(a: Address, acct: AccountModel) -> Seq<u8> {
    u64_le(32) + a.0.0@ + u64_le(acct.balance) + u64_le(acct.nonce)
}

/// The records of `ms`, concatenated in order.
pub open spec fn account_records(ms: Seq<(Address, AccountModel)>) -> Seq<u8>
    decreases ms.len(),
{
    if ms.len() == 0 {
        Seq::empty()
    } else {
        account_records(ms.drop_last()) + account_record(ms.last().0, ms.last().1)
    }
}

/// What the state root digests: the number of accounts, then each record.
pub open spec fn root_preimage_of(ms: Seq<(Address, AccountModel)>) -> Seq<u8> {
    u64_le(ms.len() as u64) + account_records(ms)
}

/// The text of the error for a fee total that overflows.
pub open spec fn fee_overflow_text() -> Seq<char> {
    "total transaction fees overflowed"@
}

/// Accounts by address, kept sorted by address bytes, with the height and
/// digest of the last applied block.
#[derive(Debug)]
pub struct State {
    accounts: Vec<(Address, Account)>,
    block_height: u64,
    last_block_hash: crate::crypto::hash::Hash,
}

impl State {
    /// The account list is strictly sorted by address bytes.
    pub closed spec fn wf(&self) -> bool {
        strictly_sorted(self.accounts@)
    }

    /// The accounts held, by address.
    pub closed spec fn accounts(&self) -> Map<Address, AccountModel> {
        entries_map(self.accounts@)
    }

    /// The height of the last applied block.
    pub closed spec fn height(&self) -> u64 {
        self.block_height
    }

    /// The digest of the last applied block.
    pub closed spec fn last_hash(&self) -> Seq<u8> {
        self.last_block_hash.0@
    }

    /// What `state_root` digests.
    pub closed spec fn root_preimage(&self) -> Seq<u8> {
        root_preimage_of(entry_models(self.accounts@))
    }

    /// The empty state: no accounts, height 0, the zero digest.
    pub fn new() -> (r: State)
        ensures
            r.wf(),
            r.accounts() == Map::<Address, AccountModel>::empty(),
            r.height() == 0,
            r.last_hash() == zero_bytes32(),
    {
        let r = State { accounts: Vec::new(), block_height: 0, last_block_hash: crate::crypto::hash::Hash::default() };
        assert(r.accounts() =~= Map::<Address, AccountModel>::empty());
        r
    }

    pub fn block_height(&self) -> (r: u64)
        ensures
            r == self.height(),
    {
        self.block_height
    }

    pub fn last_block_hash(&self) -> (r: crate::crypto::hash::Hash)
        ensures
            r.0@ == self.last_hash(),
    {
        self.last_block_hash
    }

    /// The state holding `entries` at height `block_height` with last digest
    /// `last_block_hash`, where the entries' addresses are strictly
    /// increasing; `None` where they are not.
    pub fn from_entries(entries: Vec<(Address, Account)>, block_height: u64, last_block_hash: crate::crypto::hash::Hash) -> (r: Option<State>)
        ensures
            r is Some <==> strictly_sorted(entries@),
            r matches Some(st) ==> {
                &&& st.wf()
                &&& st.accounts() == entries_map(entries@)
                &&& st.height() == block_height
                &&& st.last_hash() == last_block_hash.0@
            },
    {
        let n = entries.len();
        let mut i: usize = 1;
        while i < n
            invariant
                1 <= i,
                n == entries@.len(),
                i <= n || n == 0,
                forall|a: int, b: int|
                    0 <= a < b < i && b < n ==> bytes_before(#[trigger] key_of(entries@[a]), #[trigger] key_of(entries@[b])),
            decreases n - i,
        {
            match locate(&entries[i - 1].0.0.0, &entries[i].0.0.0) {
                KeyPosition::Before => {
                    assert forall|a: int, b: int|
                        0 <= a < b < i + 1 && b < n implies bytes_before(#[trigger] key_of(entries@[a]), #[trigger] key_of(entries@[b])) by {
                        if b == i && a < i - 1 {
                            lemma_before_transitive(
                                key_of(entries@[a]),
                                key_of(entries@[i - 1]),
                                key_of(entries@[b]),
                            );
                        }
                    }
                },
                KeyPosition::Same => {
                    proof {
                        lemma_before_irreflexive(key_of(entries@[i as int]));
                        assert(!bytes_before(key_of(entries@[i - 1]), key_of(entries@[i as int])));
                    }
                    return None;
                },
                KeyPosition::After => {
                    proof {
                        let x = key_of(entries@[i - 1]);
                        let y = key_of(entries@[i as int]);
                        if bytes_before(x, y) {
                            lemma_before_transitive(x, y, x);
                            lemma_before_irreflexive(x);
                        }
                        assert(!bytes_before(key_of(entries@[i - 1]), key_of(entries@[i as int])));
                    }
                    return None;
                },
            }
            i += 1;
        }
        Some(State { accounts: entries, block_height, last_block_hash })
    }

    /// The accounts held, with their addresses, in address order.
    pub fn entries(&self) -> (r: &[(Address, Account)])
        ensures
            entries_map(r@) == self.accounts(),
            self.wf() ==> strictly_sorted(r@),
    {
        self.accounts.as_slice()
    }

    /// Where `address` stands in the sorted list: `Ok` with its index, or
    /// `Err` with the index at which it would be inserted.
    fn locate_entry(&self, address: &Address) -> (r: Result<usize, usize>)
        requires
            self.wf(),
        ensures
            r matches Ok(i) ==> i < self.accounts@.len() && self.accounts@[i as int].0 == *address,
            r matches Err(p) ==> {
                &&& p <= self.accounts@.len()
                &&& forall|j: int| 0 <= j < p ==> bytes_before(#[trigger] key_of(self.accounts@[j]), address.0.0@)
                &&& forall|j: int| p <= j < self.accounts@.len() ==> bytes_before(address.0.0@, #[trigger] key_of(self.accounts@[j]))
            },
    {
        let n = self.accounts.len();
        let mut i: usize = 0;
        while i < n
            invariant
                0 <= i <= n,
                n == self.accounts@.len(),
                strictly_sorted(self.accounts@),
                forall|j: int| 0 <= j < i ==> bytes_before(#[trigger] key_of(self.accounts@[j]), address.0.0@),
            decreases n - i,
        {
            let key = &self.accounts[i].0;
            match locate(&key.0.0, &address.0.0) {
                KeyPosition::Before => {},
                KeyPosition::Same => {
                    assert(self.accounts@[i as int].0.0.0@ == address.0.0@);
                    assert(self.accounts@[i as int].0.0.0 == address.0.0);
                    return Ok(i);
                },
                KeyPosition::After => {
                    assert forall|j: int| i <= j < self.accounts@.len() implies bytes_before(
                        address.0.0@,
                        #[trigger] key_of(self.accounts@[j]),
                    ) by {
                        if j > i {
                            assert(bytes_before(key_of(self.accounts@[i as int]), key_of(self.accounts@[j])));
                            lemma_before_transitive(address.0.0@, key_of(self.accounts@[i as int]), key_of(self.accounts@[j]));
                        }
                    }
                    return Err(i);
                },
            }
            i += 1;
        }
        Err(n)
    }

    /// An address outside the list's sorted gap at `p` is not held.
    proof fn lemma_gap_absent(&self, address: Address, p: int)
        requires
            self.wf(),
            0 <= p <= self.accounts@.len(),
            forall|j: int| 0 <= j < p ==> bytes_before(#[trigger] key_of(self.accounts@[j]), address.0.0@),
            forall|j: int| p <= j < self.accounts@.len() ==> bytes_before(address.0.0@, #[trigger] key_of(self.accounts@[j])),
        ensures
            !self.accounts().contains_key(address),
    {
        assert forall|j: int| 0 <= j < self.accounts@.len() implies self.accounts@[j].0 != address by {
            lemma_before_irreflexive(address.0.0@);
            if j < p {
                assert(bytes_before(key_of(self.accounts@[j]), address.0.0@));
            } else {
                assert(bytes_before(address.0.0@, key_of(self.accounts@[j])));
            }
        }
        lemma_absent(self.accounts@, address);
    }

    /// The account at `address`, or the empty account where there is none.
    pub fn get_account(&self, address: &Address) -> (r: Account)
        requires
            self.wf(),
        ensures
            r@ == account_or_empty(self.accounts(), *address),
    {
        match self.locate_entry(address) {
            Ok(i) => {
                proof {
                    lemma_lookup(self.accounts@, i as int);
                }
                self.accounts[i].1
            },
            Err(p) => {
                proof {
                    self.lemma_gap_absent(*address, p as int);
                }
                Account::default()
            },
        }
    }

    pub fn get_balance(&self, address: &Address) -> (r: u64)
        requires
            self.wf(),
        ensures
            r == account_or_empty(self.accounts(), *address).balance,
    {
        self.get_account(address).balance()
    }

    pub fn get_nonce(&self, address: &Address) -> (r: u64)
        requires
            self.wf(),
        ensures
            r == account_or_empty(self.accounts(), *address).nonce,
    {
        self.get_account(address).nonce()
    }

    /// Credits `amount` to `address` (saturating), creating the account where
    /// there is none.
    pub fn credit(&mut self, address: Address, amount: u64)
        requires
            old(self).wf(),
        ensures
            final(self).wf(),
            final(self).accounts() == credited(old(self).accounts(), address, amount),
            final(self).accounts().contains_key(address),
            final(self).accounts()[address].balance == saturating_sum(
                account_or_empty(old(self).accounts(), address).balance,
                amount,
            ),
            final(self).accounts()[address].nonce == account_or_empty(old(self).accounts(), address).nonce,
            forall|b: Address| b != address ==> account_or_empty(final(self).accounts(), b) == account_or_empty(old(self).accounts(), b),
            final(self).height() == old(self).height(),
            final(self).last_hash() == old(self).last_hash(),
    {
        proof {
            lemma_credit_effect(old(self).accounts(), address, amount);
        }
        match self.locate_entry(&address) {
            Ok(i) => {
                let mut entry = self.accounts[i];
                entry.1.deposit(amount);
                proof {
                    lemma_lookup(self.accounts@, i as int);
                    lemma_update(self.accounts@, i as int, entry);
                }
                self.accounts[i] = entry;
            },
            Err(p) => {
                let mut account = Account::default();
                account.deposit(amount);
                proof {
                    self.lemma_gap_absent(address, p as int);
                    lemma_insert(self.accounts@, p as int, (address, account));
                }
                self.accounts.insert(p, (address, account));
            },
        }
    }

    /// Applies one transfer: refused (and nothing changes) for a zero
    /// amount, a bad signature, an unknown sender, a cost that overflows or a
    /// balance that does not cover it; otherwise the sender pays amount and
    /// fee, its nonce advances, the receiver is credited, and the fee is
    /// returned.
    pub fn apply_transaction(&mut self, tx: &Transaction) -> (r: Result<u64, StateError>)
        requires
            old(self).wf(),
        ensures
            final(self).wf(),
            final(self).height() == old(self).height(),
            final(self).last_hash() == old(self).last_hash(),
            transfer_refused(old(self).accounts(), *tx) ==> (r matches Err(e) && transfer_error(
                old(self).accounts(),
                *tx,
                e,
            )) && final(self).accounts() == old(self).accounts(),
            !transfer_refused(old(self).accounts(), *tx) ==> r == Ok::<u64, StateError>(tx.fee)
                && final(self).accounts() == transfer_applied(old(self).accounts(), *tx),
            !transfer_refused(old(self).accounts(), *tx) && Address(tx.receiver) != Address(tx.sender) ==> {
                &&& account_or_empty(final(self).accounts(), Address(tx.receiver)).nonce == account_or_empty(
                    old(self).accounts(),
                    Address(tx.receiver),
                ).nonce
                &&& account_or_empty(final(self).accounts(), Address(tx.sender)).nonce == saturating_sum(
                    old(self).accounts()[Address(tx.sender)].nonce,
                    1,
                )
                &&& account_or_empty(final(self).accounts(), Address(tx.receiver)).balance == saturating_sum(
                    account_or_empty(old(self).accounts(), Address(tx.receiver)).balance,
                    tx.amount,
                )
                &&& account_or_empty(final(self).accounts(), Address(tx.sender)).balance
                    == old(self).accounts()[Address(tx.sender)].balance - tx.amount - tx.fee
            },
    {
        proof {
            if !transfer_refused(old(self).accounts(), *tx) {
                lemma_transfer_effect(old(self).accounts(), *tx);
            }
        }
        if tx.amount == 0 {
            return Err(StateError::InvalidTransaction(TransactionError::ZeroAmount));
        }
        let sender_address = Address::from(tx.sender);
        let receiver_address = Address::from(tx.receiver);
        match tx.verify() {
            Ok(()) => {},
            Err(e) => {
                return Err(StateError::InvalidTransaction(e));
            },
        }
        let i = match self.locate_entry(&sender_address) {
            Ok(i) => i,
            Err(p) => {
                proof {
                    self.lemma_gap_absent(sender_address, p as int);
                }
                return Err(StateError::AccountNotFound { address: sender_address.to_hex() });
            },
        };
        proof {
            lemma_lookup(self.accounts@, i as int);
        }
        let total = match tx.amount.checked_add(tx.fee) {
            Some(t) => t,
            None => {
                return Err(StateError::InvalidTransaction(TransactionError::CostOverflow));
            },
        };
        let mut entry = self.accounts[i];
        match entry.1.withdraw(total) {
            Ok(()) => {},
            Err(e) => {
                return Err(e);
            },
        }
        entry.1.increment_nonce();
        proof {
            lemma_update(self.accounts@, i as int, entry);
        }
        self.accounts[i] = entry;
        self.credit(receiver_address, tx.amount);
        Ok(tx.fee)
    }

    /// Applies a block: refused (and nothing changes) when the state has a
    /// block and the block does not link to it, or when its index is not the
    /// next height; otherwise its transactions are applied in order, as
    /// `block_run` describes, and where all are accepted the height and
    /// digest move to the block's and the fees collected are returned.
    pub fn apply_block(&mut self, block: &Block) -> (r: Result<u64, StateError>)
        requires
            old(self).wf(),
            old(self).height() < u64::MAX || block.header.previous_hash.0@ != old(self).last_hash(),
        ensures
            final(self).wf(),
            old(self).height() > 0 && block.header.previous_hash.0@ != old(self).last_hash() ==> {
                &&& r matches Err(StateError::InvalidPreviousHash { expected, got }) && expected@ == hex_text(
                    old(self).last_hash(),
                ) && got@ == hex_text(block.header.previous_hash.0@)
                &&& final(self).accounts() == old(self).accounts()
                &&& final(self).height() == old(self).height()
                &&& final(self).last_hash() == old(self).last_hash()
            },
            !(old(self).height() > 0 && block.header.previous_hash.0@ != old(self).last_hash())
                && block.header.index != old(self).height() + 1 ==> {
                &&& r == Err::<u64, StateError>(
                    StateError::InvalidBlockHeight {
                        current: old(self).height(),
                        expected: (old(self).height() + 1) as u64,
                        got: block.header.index,
                    },
                )
                &&& final(self).accounts() == old(self).accounts()
                &&& final(self).height() == old(self).height()
                &&& final(self).last_hash() == old(self).last_hash()
            },
            !(old(self).height() > 0 && block.header.previous_hash.0@ != old(self).last_hash())
                && block.header.index == old(self).height() + 1 ==> {
                let run = block_run(old(self).accounts(), block.transactions@, block.transactions@.len());
                &&& final(self).accounts() == run.0
                &&& run.2 < 0 ==> {
                    &&& r == Ok::<u64, StateError>(run.1 as u64)
                    &&& final(self).height() == block.header.index
                    &&& final(self).last_hash() == block.hash.0@
                }
                &&& run.2 >= 0 ==> final(self).height() == old(self).height() && final(self).last_hash()
                    == old(self).last_hash()
                &&& run.2 >= 0 && run.3 ==> (r matches Err(e) && transfer_error(
                    run.0,
                    block.transactions@[run.2],
                    e,
                ))
                &&& run.2 >= 0 && !run.3 ==> (r matches Err(StateError::BlockError { error }) && error@
                    == fee_overflow_text())
            },
    {
        if self.block_height > 0 {
            if block.header.previous_hash != self.last_block_hash {
                return Err(
                    StateError::InvalidPreviousHash {
                        expected: self.last_block_hash.to_hex(),
                        got: block.header.previous_hash.to_hex(),
                    },
                );
            }
        }
        let expected_height = self.block_height + 1;
        if block.header.index != expected_height {
            return Err(
                StateError::InvalidBlockHeight {
                    current: self.block_height,
                    expected: expected_height,
                    got: block.header.index,
                },
            );
        }
        let ghost m = self.accounts();
        let ghost txs = block.transactions@;
        let n = block.transactions.len();
        let mut total_fee: u64 = 0;
        let mut i: usize = 0;
        while i < n
            invariant
                0 <= i <= n,
                n == txs.len(),
                txs == block.transactions@,
                self.wf(),
                self.accounts() == block_run(m, txs, i as nat).0,
                total_fee == block_run(m, txs, i as nat).1,
                block_run(m, txs, i as nat).2 == -1,
                self.height() == old(self).height(),
                self.last_hash() == old(self).last_hash(),
                !(old(self).height() > 0 && block.header.previous_hash.0@ != old(self).last_hash()),
                block.header.index == old(self).height() + 1,
                m == old(self).accounts(),
            decreases n - i,
        {
            let fee = match self.apply_transaction(&block.transactions[i]) {
                Ok(f) => f,
                Err(e) => {
                    proof {
                        lemma_block_run_stopped(m, txs, (i + 1) as nat, n as nat);
                    }
                    return Err(e);
                },
            };
            match total_fee.checked_add(fee) {
                Some(t) => {
                    total_fee = t;
                },
                None => {
                    proof {
                        lemma_block_run_stopped(m, txs, (i + 1) as nat, n as nat);
                        reveal_strlit("total transaction fees overflowed");
                    }
                    return Err(
                        StateError::BlockError { error: String::from_str("total transaction fees overflowed") },
                    );
                },
            }
            i += 1;
        }
        self.block_height = block.header.index;
        self.last_block_hash = block.hash;
        Ok(total_fee)
    }

    /// The digest of all accounts in address order: their number, then each
    /// address (with its 8-byte length), balance and nonce.
    pub fn state_root(&self) -> (r: crate::crypto::hash::Hash)
        ensures
            r.0@ == sha256_digest(self.root_preimage()),
    {
        let ghost ms = entry_models(self.accounts@);
        let n = self.accounts.len();
        let mut bytes: Vec<u8> = Vec::new();
        push_u64_le(&mut bytes, n as u64);
        let mut i: usize = 0;
        while i < n
            invariant
                0 <= i <= n,
                n == self.accounts@.len(),
                ms == entry_models(self.accounts@),
                bytes@ == u64_le(n as u64) + account_records(ms.subrange(0, i as int)),
            decreases n - i,
        {
            let entry = self.accounts[i];
            push_u64_le(&mut bytes, 32);
            push_bytes(&mut bytes, &entry.0.0.0);
            push_u64_le(&mut bytes, entry.1.balance());
            push_u64_le(&mut bytes, entry.1.nonce());
            proof {
                let sub = ms.subrange(0, i + 1);
                assert(sub.drop_last() =~= ms.subrange(0, i as int));
                assert(sub.last() == (entry.0, entry.1@));
                assert(bytes@ =~= u64_le(n as u64) + account_records(sub));
            }
            i += 1;
        }
        assert(ms.subrange(0, n as int) =~= ms);
        crate::crypto::hash::Hash::digest(&bytes)
    }
}

impl Clone for State {
    fn clone(&self) -> (r: State)
        ensures
            r.wf() == self.wf(),
            r.accounts() == self.accounts(),
            r.height() == self.height(),
            r.last_hash() == self.last_hash(),
            r.root_preimage() == self.root_preimage(),
    {
        let mut accounts: Vec<(Address, Account)> = Vec::new();
        let n = self.accounts.len();
        let mut i: usize = 0;
        while i < n
            invariant
                0 <= i <= n,
                n == self.accounts@.len(),
                accounts@ == self.accounts@.subrange(0, i as int),
            decreases n - i,
        {
            accounts.push(self.accounts[i]);
            assert(accounts@ =~= self.accounts@.subrange(0, i + 1));
            i += 1;
        }
        assert(accounts@ =~= self.accounts@);
        State { accounts, block_height: self.block_height, last_block_hash: self.last_block_hash }
    }
}

impl Default for State {
    /// The empty state.
    fn default() -> (r: State)
        ensures
            r.wf(),
            r.accounts() == Map::<Address, AccountModel>::empty(),
            r.height() == 0,
            r.last_hash() == zero_bytes32(),
    {
        State::new()
    }
}

/// The state root depends on the accounts held and nothing else: two states
/// that hold the same accounts by address digest the same bytes, whatever
/// order the accounts were created in.
pub proof fn lemma_state_root_canonical(s1: State, s2: State)
    requires
        s1.wf(),
        s2.wf(),
        s1.accounts() == s2.accounts(),
    ensures
        s1.root_preimage() == s2.root_preimage(),
{
    lemma_sorted_lists_canonical(s1.accounts@, s2.accounts@);
}

/// Credits to accounts commute: crediting `a` then `b` holds the same
/// accounts as crediting `b` then `a`.
pub proof fn lemma_credits_commute(m: Map<Address, AccountModel>, a: Address, x: u64, b: Address, y: u64)
    ensures
        credited(credited(m, a, x), b, y) == credited(credited(m, b, y), a, x),
{
    assert(credited(credited(m, a, x), b, y) =~= credited(credited(m, b, y), a, x));
}

} // verus!
