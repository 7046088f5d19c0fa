use blockchain_core::block::Block;
use blockchain_core::blockchain::Blockchain;
use blockchain_core::constants::DEFAULT_DIFFICULTY;
use blockchain_core::crypto::{Address, Keypair};
use blockchain_core::error::StateError;
use blockchain_core::miner::Miner;
use blockchain_core::transaction::Transaction;

#[test]
fn test_blockchain_initialization() {
    let chain = Blockchain::new(DEFAULT_DIFFICULTY);

    assert_eq!(chain.height(), 0);
    assert_eq!(chain.blocks().len(), 1);

    let genesis = chain.latest_block();

    assert_eq!(genesis.header.index, 0);
    assert_eq!(genesis.header.previous_hash, blockchain_core::crypto::hash::Hash::default());
    assert_eq!(genesis.header.difficulty, DEFAULT_DIFFICULTY);
    assert!(genesis.transactions.is_empty());
}

#[test]
fn test_successful_block_addition() {
    let difficulty = 1;
    let mut blockchain = Blockchain::new(difficulty);
    let alice = Keypair::generate();
    let bob_key = Keypair::generate().public_key();

    let miner_key = Keypair::generate();
    let miner = Miner::new(miner_key);

    let alice_address = Address::from(alice.public_key());
    let bob_address = Address::from(bob_key);

    blockchain.state.credit(alice_address, 1000);

    // Account nonce validation check
    let tx = Transaction::new(&alice, bob_key, 300, 0, 5).unwrap();

    let block_1 = Block::new(
        1,
        blockchain.latest_hash(),
        vec![tx],
        blockchain.difficulty(),
        0,
    );

    assert!(blockchain.add_block(block_1, &miner.address()).is_ok());
    assert_eq!(blockchain.height(), 1);
    assert_eq!(blockchain.state.get_balance(&bob_address), 300);
    assert_eq!(blockchain.state().get_balance(&alice_address), 695);
}

#[test]
fn test_rejects_out_of_sequence_block() {
    let mut blockchain = Blockchain::new(DEFAULT_DIFFICULTY);

    let miner_key = Keypair::generate();
    let miner = Miner::new(miner_key);

    let invalid_block = Block::new(
        5,
        blockchain.latest_hash(),
        vec![],
        blockchain.difficulty(),
        0,
    );

    assert!(blockchain
        .add_block(invalid_block, &miner.address())
        .is_err());
    assert_eq!(blockchain.height(), 0);
}

#[test]
fn out_of_sequence_block_names_the_heights() {
    let mut blockchain = Blockchain::new(1);
    let miner = Miner::new(Keypair::from_seed(&[3u8; 32]));
    let block = Block::new(5, blockchain.latest_hash(), vec![], 1, 0);
    assert_eq!(
        blockchain.add_block(block, &miner.address()),
        Err(StateError::InvalidBlockHeight { current: 0, expected: 1, got: 5 })
    );
    assert_eq!(blockchain.blocks().len(), 1);
}

#[test]
fn block_without_proof_of_work_is_refused() {
    let mut blockchain = Blockchain::new(1);
    let miner = Miner::new(Keypair::from_seed(&[3u8; 32]));
    let mut block = Block::new(1, blockchain.latest_hash(), vec![], 1, 0);
    block.hash = blockchain_core::crypto::hash::Hash([0xffu8; 32]);
    assert_eq!(
        blockchain.add_block(block, &miner.address()),
        Err(StateError::InvalidPreviousHash {
            expected: "Valid PoW block at diff 1".to_string(),
            got: "Invalid block header or proof-of-work".to_string(),
        })
    );
    assert_eq!(blockchain.height(), 0);
}

#[test]
fn block_linked_elsewhere_is_refused_with_both_digests() {
    let mut blockchain = Blockchain::new(1);
    let miner = Miner::new(Keypair::from_seed(&[3u8; 32]));
    let elsewhere = blockchain_core::crypto::hash::Hash([0xabu8; 32]);
    let block = Block::new(1, elsewhere, vec![], 1, 0);
    let expected = blockchain.latest_hash().to_hex();
    assert_eq!(
        blockchain.add_block(block, &miner.address()),
        Err(StateError::InvalidPreviousHash { expected, got: "ab".repeat(32) })
    );
}

#[test]
fn accepted_block_becomes_the_tip_and_pays_its_miner() {
    let mut blockchain = Blockchain::new(1);
    let alice = Keypair::from_seed(&[4u8; 32]);
    let bob = Keypair::from_seed(&[5u8; 32]).public_key();
    let miner = Miner::new(Keypair::from_seed(&[6u8; 32]));
    blockchain.state.credit(Address::from(alice.public_key()), 100);
    let tx = Transaction::new(&alice, bob, 60, 0, 7).unwrap();
    let block = Block::new(1, blockchain.latest_hash(), vec![tx], 1, 0);
    let hash = block.hash;
    assert_eq!(blockchain.add_block(block, &miner.address()), Ok(()));
    assert_eq!(blockchain.latest_hash(), hash);
    assert_eq!(blockchain.blocks().len(), 2);
    assert_eq!(blockchain.state().last_block_hash(), hash);
    assert_eq!(blockchain.state().get_balance(&miner.address()), 7);
    assert_eq!(blockchain.state().get_nonce(&Address::from(alice.public_key())), 1);
}

fn assert_chain_shape(chain: &Blockchain) {
    let blocks = chain.blocks();
    assert_eq!(blocks.len() as u64, chain.height() + 1);
    if chain.height() > 0 {
        assert_eq!(chain.state().last_block_hash(), chain.latest_hash());
    }
    for i in 1..blocks.len() {
        assert_eq!(blocks[i].header.index, i as u64);
        assert_eq!(blocks[i].header.previous_hash, blocks[i - 1].hash);
        assert!(blocks[i].is_valid(chain.difficulty()));
    }
}

#[test]
fn chain_keeps_its_shape_through_accepted_and_refused_blocks() {
    let mut blockchain = Blockchain::new(DEFAULT_DIFFICULTY);
    let miner = Miner::new(Keypair::from_seed(&[50u8; 32]));
    assert_chain_shape(&blockchain);
    for round in 1..4u64 {
        let good = Block::new(round, blockchain.latest_hash(), vec![], blockchain.difficulty(), 0);
        assert!(blockchain.add_block(good, &miner.address()).is_ok());
        assert_chain_shape(&blockchain);
        let stray = Block::new(round + 5, blockchain.latest_hash(), vec![], blockchain.difficulty(), 0);
        assert!(blockchain.add_block(stray, &miner.address()).is_err());
        assert_chain_shape(&blockchain);
    }
    assert_eq!(blockchain.height(), 3);
}

#[test]
fn chain_from_parts_needs_a_block() {
    let original = Blockchain::new(DEFAULT_DIFFICULTY);
    let blocks = original.blocks().to_vec();
    let rebuilt = Blockchain::from_parts(blocks, original.state().clone(), 2).unwrap();
    assert_eq!(rebuilt.blocks().len(), 1);
    assert_eq!(rebuilt.difficulty(), 2);
    assert!(Blockchain::from_parts(Vec::new(), original.state().clone(), 2).is_none());
}
