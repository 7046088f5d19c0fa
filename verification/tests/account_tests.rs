use blockchain_core::account::Account;
use blockchain_core::error::StateError;
use blockchain_core::interfaces::IAccount;

#[test]
fn test_account_creation_and_defaults() {
    let acc = Account::new(500, 2);
    assert_eq!(acc.balance(), 500);
    assert_eq!(acc.nonce(), 2);
}

#[test]
fn test_account_deposit_and_withdraw() {
    let mut acc = Account::new(100, 0);

    acc.deposit(50);
    assert_eq!(acc.balance(), 150);

    assert!(acc.withdraw(30).is_ok());
    assert_eq!(acc.balance(), 120);
}

#[test]
fn test_account_insufficient_balance_error() {
    let mut acc = Account::new(50, 0);

    let result = acc.withdraw(100);
    assert_eq!(
        result,
        Err(StateError::InsufficientBalance {
            available: 50,
            required: 100,
        })
    );
}

#[test]
fn test_nonce_incrementation() {
    let mut acc = Account::new(100, 0);
    acc.increment_nonce();
    assert_eq!(acc.nonce(), 1);
}

#[test]
fn deposit_saturates_at_the_maximum() {
    let mut acc = Account::new(u64::MAX - 5, 3);
    acc.deposit(10);
    assert_eq!(acc.balance(), u64::MAX);
    assert_eq!(acc.nonce(), 3);
}

#[test]
fn nonce_saturates_at_the_maximum() {
    let mut acc = Account::new(7, u64::MAX);
    acc.increment_nonce();
    assert_eq!(acc.nonce(), u64::MAX);
    assert_eq!(acc.balance(), 7);
}

#[test]
fn withdrawing_the_whole_balance_leaves_zero() {
    let mut acc = Account::new(40, 9);
    assert_eq!(acc.withdraw(40), Ok(()));
    assert_eq!(acc.balance(), 0);
    assert_eq!(acc.nonce(), 9);
}

#[test]
fn refused_withdrawal_changes_nothing() {
    let mut acc = Account::new(10, 4);
    assert!(acc.withdraw(11).is_err());
    assert_eq!(acc, Account::new(10, 4));
}

#[test]
fn default_account_is_empty() {
    let acc = Account::default();
    assert_eq!(acc.balance(), 0);
    assert_eq!(acc.nonce(), 0);
}
