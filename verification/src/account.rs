//! The balance and nonce held for one address.

use vstd::prelude::*;

use crate::error::StateError;
use crate::interfaces::account::IAccount;

verus! {

/// `a + b`, or `u64::MAX` where that does not fit.
pub open spec fn saturating_sum(a: u64, b: u64) -> u64 {
    if a + b > u64::MAX {
        u64::MAX
    } else {
        (a + b) as u64
    }
}

/// The account `m` after `amount` is deposited.
pub open spec fn after_deposit(m: AccountModel, amount: u64) -> AccountModel {
    AccountModel { balance: saturating_sum(m.balance, amount), nonce: m.nonce }
}

/// The account `m` after `amount` is withdrawn from a balance that covers it.
pub open spec fn after_withdrawal(m: AccountModel, amount: u64) -> AccountModel {
    AccountModel { balance: (m.balance - amount) as u64, nonce: m.nonce }
}

/// What an account holds.
pub struct AccountModel {
    pub balance: u64,
    pub nonce: u64,
}

/// A balance with a replay counter.
#[derive(Clone, Copy, Debug, PartialEq, Eq)]
pub struct Account {
    balance: u64,
    nonce: u64,
}

impl View for Account {
    type V = AccountModel;

    closed spec fn view(&self) -> AccountModel {
        AccountModel { balance: self.balance, nonce: self.nonce }
    }
}

impl Account {
    /// An account holding `balance` with nonce `nonce`.
    pub fn new(balance: u64, nonce: u64) -> (r: Account)
        ensures
            r@ == (AccountModel { balance, nonce }),
    {
        Account { balance, nonce }
    }
}

impl Default for Account {
    /// The empty account: no balance, nonce zero.
    fn default() -> (r: Account)
        ensures
            r@ == (AccountModel { balance: 0, nonce: 0 }),
    {
        Account { balance: 0, nonce: 0 }
    }
}

impl IAccount for Account {
    /// Takes `amount` from the balance when it covers it; otherwise refuses
    /// and changes nothing.
    fn withdraw(&mut self, amount: u64) -> (r: Result<(), StateError>)
        ensures
            old(self)@.balance >= amount ==> r is Ok && final(self)@ == after_withdrawal(old(self)@, amount),
            old(self)@.balance < amount ==> r == Err::<(), StateError>(
                StateError::InsufficientBalance { available: old(self)@.balance, required: amount },
            ) && final(self)@ == old(self)@,
    {
        if self.balance < amount {
            return Err(StateError::InsufficientBalance { available: self.balance, required: amount });
        }
        self.balance = self.balance - amount;
        Ok(())
    }

    /// Advances the nonce by one, stopping at `u64::MAX`.
    fn increment_nonce(&mut self)
        ensures
            final(self)@ == (AccountModel {
                balance: old(self)@.balance,
                nonce: saturating_sum(old(self)@.nonce, 1),
            }),
    {
        self.nonce = self.nonce.saturating_add(1);
    }

    /// Adds `amount` to the balance, stopping at `u64::MAX`.
    fn deposit(&mut self, amount: u64)
        ensures
            final(self)@ == after_deposit(old(self)@, amount),
    {
        self.balance = self.balance.saturating_add(amount);
    }

    fn balance(&self) -> (r: u64)
        ensures
            r == self@.balance,
    {
        self.balance
    }

    fn nonce(&self) -> (r: u64)
        ensures
            r == self@.nonce,
    {
        self.nonce
    }
}

/// Withdrawing what was just deposited restores the account, where the
/// deposit did not saturate.
pub proof fn lemma_deposit_then_withdraw(m: AccountModel, amount: u64)
    requires
        m.balance + amount <= u64::MAX,
    ensures
        after_deposit(m, amount).balance >= amount,
        after_withdrawal(after_deposit(m, amount), amount) == m,
{
}

} // verus!
