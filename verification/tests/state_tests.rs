use blockchain_core::block::Block;
use blockchain_core::crypto::{Address, Keypair};
use blockchain_core::error::{StateError, TransactionError};
use blockchain_core::state::State;
use blockchain_core::transaction::Transaction;

#[test]
fn test_state_root_is_deterministic_regardless_of_insertion_order() {
    let key_a = Keypair::generate();
    let key_b = Keypair::generate();

    let addr_a = Address::from(key_a.public_key());
    let addr_b = Address::from(key_b.public_key());

    // State 1: Insert A then B
    let mut state_1 = State::new();
    state_1.credit(addr_a, 100);
    state_1.credit(addr_b, 200);

    // State 2: Insert B then A
    let mut state_2 = State::new();
    state_2.credit(addr_b, 200);
    state_2.credit(addr_a, 100);

    // Both state roots must be identical despite insertion order difference
    assert_eq!(
        state_1.state_root(),
        state_2.state_root(),
        "State roots must match regardless of insertion order"
    );
}

#[test]
fn test_state_root_changes_on_state_mutation() {
    let alice_keypair = Keypair::generate();
    let bob_keypair = Keypair::generate();

    let alice_addr = Address::from(alice_keypair.public_key());
    let bob_addr = Address::from(bob_keypair.public_key());

    let mut state = State::new();
    state.credit(alice_addr, 500);

    let root_before = state.state_root();

    // Perform transaction
    let tx = Transaction::new(&alice_keypair, *bob_addr.public_key(), 100, 0, 5).unwrap();

    assert!(state.apply_transaction(&tx).is_ok());

    let root_after = state.state_root();

    // State root must change after state transition
    assert_ne!(
        root_before, root_after,
        "State root must mutate when accounts or balances update"
    );
}

fn key(n: u8) -> Keypair {
    Keypair::from_seed(&[n; 32])
}

#[test]
fn credits_in_any_order_give_the_same_root() {
    let addrs: Vec<Address> = (40u8..44).map(|n| Address::from(key(n).public_key())).collect();
    let mut forward = State::new();
    for (i, a) in addrs.iter().enumerate() {
        forward.credit(*a, 10 * (i as u64 + 1));
        forward.credit(*a, 1);
    }
    let mut backward = State::new();
    for (i, a) in addrs.iter().enumerate().rev() {
        backward.credit(*a, 1);
        backward.credit(*a, 10 * (i as u64 + 1));
    }
    assert_eq!(forward.state_root(), backward.state_root());
    assert_eq!(forward.get_balance(&addrs[2]), 31);
}

#[test]
fn state_root_digests_the_sorted_records() {
    let a = Address::from(key(50).public_key());
    let b = Address::from(key(51).public_key());
    let mut state = State::new();
    state.credit(a, 7);
    state.credit(b, 9);
    let mut records: Vec<(Vec<u8>, u64, u64)> = vec![
        (a.0 .0.to_vec(), 7, 0),
        (b.0 .0.to_vec(), 9, 0),
    ];
    records.sort_by(|x, y| x.0.cmp(&y.0));
    let bytes = bincode::serialize(&records).unwrap();
    assert_eq!(state.state_root(), blockchain_core::crypto::hash::Hash::digest(&bytes));
}

#[test]
fn unknown_account_reads_as_empty() {
    let state = State::new();
    let a = Address::from(key(52).public_key());
    assert_eq!(state.get_balance(&a), 0);
    assert_eq!(state.get_nonce(&a), 0);
    assert_eq!(state.block_height(), 0);
    assert_eq!(state.last_block_hash(), blockchain_core::crypto::hash::Hash::default());
}

#[test]
fn transfer_moves_amount_and_fee() {
    let alice = key(53);
    let bob = key(54).public_key();
    let mut state = State::new();
    state.credit(Address::from(alice.public_key()), 100);
    let tx = Transaction::new(&alice, bob, 30, 0, 4).unwrap();
    assert_eq!(state.apply_transaction(&tx), Ok(4));
    assert_eq!(state.get_balance(&Address::from(alice.public_key())), 66);
    assert_eq!(state.get_nonce(&Address::from(alice.public_key())), 1);
    assert_eq!(state.get_balance(&Address::from(bob)), 30);
}

#[test]
fn refused_transfers_name_their_reason() {
    let alice = key(55);
    let bob = key(56).public_key();
    let alice_addr = Address::from(alice.public_key());

    let mut empty = State::new();
    let tx = Transaction::new(&alice, bob, 30, 0, 4).unwrap();
    assert_eq!(
        empty.apply_transaction(&tx),
        Err(StateError::AccountNotFound { address: alice_addr.to_hex() })
    );

    let mut state = State::new();
    state.credit(alice_addr, 20);
    assert_eq!(
        state.apply_transaction(&tx),
        Err(StateError::InsufficientBalance { available: 20, required: 34 })
    );

    let mut zero = tx;
    zero.amount = 0;
    assert_eq!(
        state.apply_transaction(&zero),
        Err(StateError::InvalidTransaction(TransactionError::ZeroAmount))
    );

    let mut forged = tx;
    forged.amount = 1;
    assert_eq!(
        state.apply_transaction(&forged),
        Err(StateError::InvalidTransaction(TransactionError::InvalidSignature(
            blockchain_core::crypto::CryptoError::VerificationFailed
        )))
    );

    let huge = Transaction::new(&alice, bob, u64::MAX, 0, 1).unwrap();
    assert_eq!(
        state.apply_transaction(&huge),
        Err(StateError::InvalidTransaction(TransactionError::CostOverflow))
    );
    assert_eq!(state.get_balance(&alice_addr), 20);
}

#[test]
fn block_must_come_next_and_link() {
    let mut state = State::new();
    let wrong_height = Block::new_at(2, blockchain_core::crypto::hash::Hash::default(), vec![], 1, 0, 0);
    assert_eq!(
        state.apply_block(&wrong_height),
        Err(StateError::InvalidBlockHeight { current: 0, expected: 1, got: 2 })
    );
    let first = Block::new_at(1, blockchain_core::crypto::hash::Hash::default(), vec![], 1, 0, 0);
    assert_eq!(state.apply_block(&first), Ok(0));
    assert_eq!(state.block_height(), 1);
    assert_eq!(state.last_block_hash(), first.hash);
    let unlinked = Block::new_at(2, blockchain_core::crypto::hash::Hash([1u8; 32]), vec![], 1, 0, 0);
    assert_eq!(
        state.apply_block(&unlinked),
        Err(StateError::InvalidPreviousHash {
            expected: first.hash.to_hex(),
            got: "01".repeat(32),
        })
    );
}

#[test]
fn fees_that_overflow_stop_the_block() {
    let a = key(57);
    let b = key(58);
    let sink = key(59).public_key();
    let mut state = State::new();
    state.credit(Address::from(a.public_key()), u64::MAX);
    state.credit(Address::from(b.public_key()), u64::MAX);
    let half = 1u64 << 63;
    let ta = Transaction::new(&a, sink, 1, 0, half).unwrap();
    let tb = Transaction::new(&b, sink, 1, 0, half).unwrap();
    let block = Block::new_at(1, blockchain_core::crypto::hash::Hash::default(), vec![ta, tb], 1, 0, 0);
    assert_eq!(
        state.apply_block(&block),
        Err(StateError::BlockError { error: "total transaction fees overflowed".to_string() })
    );
    assert_eq!(state.block_height(), 0);
    assert_eq!(state.get_balance(&Address::from(sink)), 2);
}

#[test]
fn a_refused_transaction_stops_the_block_after_its_predecessors() {
    let a = key(60);
    let sink = key(61).public_key();
    let mut state = State::new();
    state.credit(Address::from(a.public_key()), 10);
    let ok = Transaction::new(&a, sink, 5, 0, 0).unwrap();
    let too_much = Transaction::new(&a, sink, 6, 1, 0).unwrap();
    let block = Block::new_at(1, blockchain_core::crypto::hash::Hash::default(), vec![ok, too_much], 1, 0, 0);
    assert_eq!(
        state.apply_block(&block),
        Err(StateError::InsufficientBalance { available: 5, required: 6 })
    );
    assert_eq!(state.get_balance(&Address::from(sink)), 5);
    assert_eq!(state.block_height(), 0);
}

#[test]
fn state_rebuilt_from_its_entries_has_the_same_root() {
    let mut state = State::new();
    for n in 70..74u8 {
        state.credit(Address::from(key(n).public_key()), n as u64 * 10);
    }
    let entries = state.entries().to_vec();
    let rebuilt = State::from_entries(entries.clone(), 0, state.last_block_hash()).unwrap();
    assert_eq!(rebuilt.state_root(), state.state_root());
    let mut reversed = entries.clone();
    reversed.reverse();
    assert!(State::from_entries(reversed, 0, state.last_block_hash()).is_none());
    let mut repeated = entries.clone();
    repeated.push(entries[entries.len() - 1]);
    assert!(State::from_entries(repeated, 0, state.last_block_hash()).is_none());
    assert!(State::from_entries(Vec::new(), 3, state.last_block_hash()).unwrap().block_height() == 3);
}
