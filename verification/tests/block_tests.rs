use blockchain_core::block::{Block, BlockHeader};
use blockchain_core::constants::DEFAULT_DIFFICULTY;
use blockchain_core::crypto::{Keypair, PublicKey};
use blockchain_core::interfaces::Storable;
use blockchain_core::transaction::Transaction;

fn create_dummy_tx(
    sender_keypair: &Keypair,
    receiver: PublicKey,
    amount: u64,
    nonce: u64,
    fee: u64,
) -> Transaction {
    Transaction::new(sender_keypair, receiver, amount, nonce, fee).unwrap()
}

#[test]
fn test_merkle_root_sensitivity_to_data() {
    let alice = Keypair::generate();
    let bob_addr = Keypair::generate().public_key();

    let tx1 = create_dummy_tx(&alice, bob_addr, 100, 0, 5);
    let tx2 = create_dummy_tx(&alice, bob_addr, 200, 1, 5);

    let root_1 = Block::calculate_merkle_root(&[tx1.clone(), tx2.clone()]);

    let mut tx2_modified = tx2.clone();
    tx2_modified.amount = 400;

    let root_2 = Block::calculate_merkle_root(&[tx1, tx2_modified]);

    assert_ne!(
        root_1, root_2,
        "Merkle root must change when a transaction field changes"
    );
}

#[test]
fn test_mining_and_difficulty_satisfaction() {
    let alice = Keypair::generate();
    let bob_addr = Keypair::generate().public_key();

    let tx = create_dummy_tx(&alice, bob_addr, 50, 0, 3);
    let previous_block = Block::gensis(DEFAULT_DIFFICULTY);

    let difficulty = DEFAULT_DIFFICULTY;
    let mut block = Block::new(
        previous_block.header.index + 1,
        previous_block.hash,
        vec![tx],
        difficulty,
        0,
    );

    block.mine(difficulty);
    assert!(Block::satisfies_difficulty(&block.hash, difficulty));
    assert_eq!(block.hash, block.header.calculate_hash());
    assert!(block.is_valid(difficulty));
}

#[test]
fn test_validation_fails_on_tampered_header() {
    let alice = Keypair::generate();
    let bob_addr = Keypair::generate().public_key();

    let tx = create_dummy_tx(&alice, bob_addr, 50, 0, 3);

    let previous_block = Block::gensis(DEFAULT_DIFFICULTY);
    let difficulty = DEFAULT_DIFFICULTY;
    let mut block = Block::new(
        previous_block.header.index + 1,
        previous_block.hash,
        vec![tx],
        difficulty,
        0,
    );

    block.header.index = 999;

    assert!(
        !block.is_valid(difficulty),
        "Block validation must fail if header hash no longer matches block.hash"
    );
}

#[test]
fn test_block_header_serialization_roundtrip() {
    let previous_block = Block::gensis(DEFAULT_DIFFICULTY);

    let header = BlockHeader {
        index: 55,
        timestamp: 17000000,
        previous_hash: previous_block.hash,
        merkle_root: blockchain_core::crypto::hash::Hash::digest(b"test"),
        nonce: 1001,
        difficulty: DEFAULT_DIFFICULTY,
    };

    let bytes = header.to_bytes();
    let fields: (u64, u64, [u8; 32], [u8; 32], u64, u64) = bincode::deserialize(&bytes).unwrap();
    let deserialized = BlockHeader {
        index: fields.0,
        timestamp: fields.1,
        previous_hash: blockchain_core::crypto::hash::Hash(fields.2),
        merkle_root: blockchain_core::crypto::hash::Hash(fields.3),
        nonce: fields.4,
        difficulty: fields.5 as usize,
    };

    assert_eq!(header, deserialized);
    assert_eq!(header.calculate_hash(), deserialized.calculate_hash());
}

#[test]
fn header_bytes_are_the_fixed_width_layout() {
    let header = BlockHeader {
        index: 1,
        timestamp: 2,
        previous_hash: blockchain_core::crypto::hash::Hash([7u8; 32]),
        merkle_root: blockchain_core::crypto::hash::Hash([9u8; 32]),
        nonce: 0x0102,
        difficulty: 3,
    };
    let bytes = header.to_bytes();
    assert_eq!(bytes.len(), 96);
    assert_eq!(&bytes[0..8], &[1, 0, 0, 0, 0, 0, 0, 0]);
    assert_eq!(&bytes[8..16], &[2, 0, 0, 0, 0, 0, 0, 0]);
    assert_eq!(&bytes[16..48], &[7u8; 32]);
    assert_eq!(&bytes[48..80], &[9u8; 32]);
    assert_eq!(&bytes[80..88], &[2, 1, 0, 0, 0, 0, 0, 0]);
    assert_eq!(&bytes[88..96], &[3, 0, 0, 0, 0, 0, 0, 0]);
    assert_eq!(
        header.calculate_hash(),
        blockchain_core::crypto::hash::Hash::digest(&bytes)
    );
}

#[test]
fn empty_block_merkle_root_is_the_digest_of_the_tag() {
    assert_eq!(
        Block::calculate_merkle_root(&[]),
        blockchain_core::crypto::hash::Hash::digest(b"empty_block")
    );
}

#[test]
fn merkle_root_digests_the_concatenated_ids() {
    let alice = Keypair::from_seed(&[1u8; 32]);
    let bob = Keypair::from_seed(&[2u8; 32]).public_key();
    let tx1 = create_dummy_tx(&alice, bob, 10, 0, 1);
    let tx2 = create_dummy_tx(&alice, bob, 20, 1, 2);
    let mut combined = Vec::new();
    combined.extend_from_slice(tx1.hash().as_bytes());
    combined.extend_from_slice(tx2.hash().as_bytes());
    assert_eq!(
        Block::calculate_merkle_root(&[tx1, tx2]),
        blockchain_core::crypto::hash::Hash::digest(&combined)
    );
}

#[test]
fn difficulty_counts_leading_zero_bytes() {
    let mut bytes = [0u8; 32];
    bytes[2] = 1;
    let hash = blockchain_core::crypto::hash::Hash(bytes);
    assert!(Block::satisfies_difficulty(&hash, 0));
    assert!(Block::satisfies_difficulty(&hash, 2));
    assert!(!Block::satisfies_difficulty(&hash, 3));
    let zero = blockchain_core::crypto::hash::Hash([0u8; 32]);
    assert!(Block::satisfies_difficulty(&zero, 100));
    let mut last = [0u8; 32];
    last[31] = 5;
    assert!(!Block::satisfies_difficulty(&blockchain_core::crypto::hash::Hash(last), 100));
}

#[test]
fn mining_stops_at_the_first_solving_nonce() {
    let mut block = Block::new_at(3, blockchain_core::crypto::hash::Hash::default(), vec![], 2, 0, 1234);
    assert_eq!(block.header.timestamp, 1234);
    let start = block.header.nonce;
    assert!(block.mine(2));
    assert!(block.is_valid(2));
    let solved = block.header.nonce;
    let mut probe = block.header;
    for n in start..solved {
        probe.nonce = n;
        assert!(!Block::satisfies_difficulty(&probe.calculate_hash(), 2));
    }
}

#[test]
fn mining_an_already_solved_block_keeps_it() {
    let mut block = Block::new_at(1, blockchain_core::crypto::hash::Hash::default(), vec![], 1, 0, 99);
    let header = block.header;
    let hash = block.hash;
    assert!(block.mine(1));
    assert_eq!(block.header, header);
    assert_eq!(block.hash, hash);
}

#[test]
fn mining_runs_out_at_the_last_nonce() {
    let mut block = Block::new_at(1, blockchain_core::crypto::hash::Hash::default(), vec![], 1, 0, 5);
    block.header.nonce = u64::MAX;
    let hash_before = block.hash;
    let found = block.mine(32);
    assert!(!found);
    assert_eq!(block.header.nonce, u64::MAX);
    assert_eq!(block.hash, hash_before);
}

#[test]
fn genesis_has_no_predecessor_and_no_transactions() {
    let genesis = Block::gensis(3);
    assert_eq!(genesis.header.index, 0);
    assert_eq!(genesis.header.difficulty, DEFAULT_DIFFICULTY);
    assert_eq!(genesis.header.previous_hash, blockchain_core::crypto::hash::Hash::default());
    assert!(genesis.transactions.is_empty());
    assert!(genesis.is_valid(DEFAULT_DIFFICULTY));
}

#[test]
fn clone_keeps_every_field() {
    let block = Block::gensis(1);
    let copy = block.clone();
    assert_eq!(copy, block);
}
