use blockchain_core::blockchain::Blockchain;
use blockchain_core::constants::DEFAULT_DIFFICULTY;
use blockchain_core::crypto::{Address, Keypair};
use blockchain_core::mempool::Mempool;
use blockchain_core::miner::Miner;
use blockchain_core::transaction::Transaction;

#[test]
fn test_pow_difficulty_satisfaction() {
    let difficulty = 2; // Requires 2 leading zeroes in block hash
    let mut blockchain = Blockchain::new(difficulty);
    let mut mempool = Mempool::new();
    let miner = Miner::new(Keypair::generate());

    let mined_block = miner
        .mine_next_block(&mut blockchain, &mut mempool, 10)
        .expect("Mining failed");

    // Verify proof-of-work hash satisfies leading zero requirement
    assert!(mined_block.hash.iter().take(difficulty).all(|&b| b == 0));
}

#[test]
fn test_miner_receives_block_subsidy_and_fees() {
    let mut blockchain = Blockchain::new(DEFAULT_DIFFICULTY);
    let mut mempool = Mempool::new();

    let miner_keys = Keypair::generate();
    let miner = Miner::new(miner_keys);

    let alice = Keypair::generate();
    let bob = Keypair::generate();

    let alice_address = Address::from(alice.public_key());
    let bob_address = Address::from(bob.public_key());

    // 1. Credit Alice in state
    blockchain.state.credit(alice_address, 1000);

    // 2. Alice sends 200 coins to Bob with a 15 fee
    let tx = Transaction::new(&alice, bob.public_key(), 200, 0, 15).unwrap();
    assert!(mempool.add_transaction(tx, blockchain.state()).is_ok());

    // Initial miner balance should be 0
    assert_eq!(blockchain.state().get_balance(&miner.address()), 0);

    // 3. Mine next block
    let mined_block = miner
        .mine_next_block(&mut blockchain, &mut mempool, 10)
        .unwrap();

    // 4. Assertions
    assert_eq!(blockchain.height(), 1);
    assert_eq!(mined_block.transactions.len(), 1);

    // Bob receives amount
    assert_eq!(blockchain.state().get_balance(&bob_address), 200);

    // Alice balance drops (1000 - 200 - 15 = 785)
    assert_eq!(blockchain.state().get_balance(&alice_address), 785);

    // The miner receives the fee
    assert_eq!(blockchain.state().get_balance(&miner.address()), 15);

    // Mempool is cleared
    assert_eq!(mempool.len(), 0);
}

#[test]
fn test_miner_prioritizes_high_fee_transactions() {
    let mut blockchain = Blockchain::new(DEFAULT_DIFFICULTY);
    let mut mempool = Mempool::new();

    let miner = Miner::new(Keypair::generate());
    let alice = Keypair::generate();
    let bob = Keypair::generate();
    let charlie = Keypair::generate();

    let alice_addr = Address::from(alice.public_key());
    let bob_addr = Address::from(bob.public_key());

    blockchain.state.credit(alice_addr, 2000);
    blockchain.state.credit(bob_addr, 2000);

    // Tx 1: Low fee (Fee = 2)
    let tx_low_fee = Transaction::new(&alice, charlie.public_key(), 100, 0, 2).unwrap();

    // Tx 2: High fee (Fee = 50)
    let tx_high_fee = Transaction::new(&bob, charlie.public_key(), 100, 0, 50).unwrap();

    assert!(mempool
        .add_transaction(tx_low_fee, blockchain.state())
        .is_ok());
    assert!(mempool
        .add_transaction(tx_high_fee, blockchain.state())
        .is_ok());

    // 2 transactions in pool, but limit block size to max 1 transaction
    let mined_block = miner
        .mine_next_block(&mut blockchain, &mut mempool, 1)
        .expect("Mining failed");

    // Block contains only 1 transaction (the high fee one)
    assert_eq!(mined_block.transactions.len(), 1);
    assert_eq!(mined_block.transactions[0].fee, 50);

    // 1 low-fee transaction remains in mempool for next block
    assert_eq!(mempool.len(), 1);
}

#[test]
fn miner_address_is_its_public_key() {
    let keys = Keypair::from_seed(&[30u8; 32]);
    let expected = Address::from(keys.public_key());
    let miner = Miner::new(keys);
    assert_eq!(miner.address(), expected);
}

#[test]
fn refused_block_leaves_the_pool_alone() {
    let mut blockchain = Blockchain::new(1);
    let mut mempool = Mempool::new();
    let miner = Miner::new(Keypair::from_seed(&[31u8; 32]));
    let alice = Keypair::from_seed(&[32u8; 32]);
    let bob = Keypair::from_seed(&[33u8; 32]).public_key();
    blockchain.state.credit(Address::from(alice.public_key()), 100);
    let tx = Transaction::new(&alice, bob, 50, 0, 1).unwrap();
    mempool.add_transaction(tx, blockchain.state()).unwrap();
    // The funds leave before the block is mined, so the block's transfer fails.
    let other = Keypair::from_seed(&[34u8; 32]).public_key();
    let spend = Transaction::new(&alice, other, 100, 0, 0).unwrap();
    assert_eq!(blockchain.state.apply_transaction(&spend), Ok(0));
    let result = miner.mine_next_block(&mut blockchain, &mut mempool, 10);
    let message = result.unwrap_err();
    assert_eq!(
        message,
        "Block execution failed: InsufficientBalance { available: 0, required: 51 }"
    );
    assert_eq!(mempool.len(), 1);
    assert_eq!(blockchain.blocks().len(), 1);
}
