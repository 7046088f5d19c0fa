//! A miner: packs the highest-fee pending transactions into a block, mines
//! it and offers it to the chain.

use vstd::prelude::*;

use crate::block::{merkle_root_of, nonce_search, Block};
use crate::blockchain::{chain_step, Blockchain};
use crate::crypto::ed25519::ed25519_public_of;
use crate::crypto::keys::address::Address;
use crate::crypto::keys::keypair::Keypair;
use crate::constants::DEFAULT_DIFFICULTY;
use crate::crypto::hash::zero_bytes32;
use crate::error::{state_error_debug, StateError};
use crate::transaction::Transaction;
use crate::mempool::{prioritized, unmined, Mempool};

verus! {

/// The text that starts the error of a refused block.
pub open spec fn block_failure_prefix() -> Seq<char> {
    "Block execution failed: "@
}

/// What one call of the miner builds and mines from the chain `chain` and
/// the pending transactions `pending` with at most `max` transactions:
/// `built` is the block over the prioritized transactions, with the next
/// index, a link to the tip, the chain's difficulty and the timestamp `ts`,
/// mined from nonce 0 for `DEFAULT_DIFFICULTY`; `mined` is `built` mined
/// further for the chain's difficulty.
pub open spec fn mined_attempt(chain: Blockchain, pending: Seq<Transaction>, max: usize, ts: u64, built: Block, mined: Block) -> bool {
    let d = chain.required_difficulty();
    &&& prioritized(pending, max, built.transactions@)
    &&& built.header.merkle_root.0@ == merkle_root_of(built.transactions@)
    &&& nonce_search(
        Block::unmined_header((chain.world().height() + 1) as u64, ts, chain.chain().last().hash, built.header.merkle_root, d, 0),
        zero_bytes32(),
        built,
        DEFAULT_DIFFICULTY,
    )
    &&& mined.transactions@ == built.transactions@
    &&& nonce_search(built.header, built.hash.0@, mined, d)
}

/// A miner, identified by its signing key.
pub struct Miner {
    keypair: Keypair,
}

impl Miner {
    /// The address that collects this miner's fees.
    pub closed spec fn reward_address(&self) -> Address {
        Address(self.keypair.verifying_key())
    }

    /// The miner with `keypair`.
    pub fn new(keypair: Keypair) -> (r: Miner)
        ensures
            r.reward_address() == Address(keypair.verifying_key()),
            r.reward_address().0.0@ == ed25519_public_of(keypair.secret()),
    {
        // The public half, read through the key's invariant, is what the
        // miner's address is derived from.
        let _ = keypair.public_key();
        Miner { keypair }
    }

    /// The address of the miner's public key.
    pub fn address(&self) -> (r: Address)
        ensures
            r == self.reward_address(),
    {
        Address::from(self.keypair.public_key())
    }

    /// Takes up to `max_tx_per_block` pending transactions by fee priority,
    /// builds the next block over them, mines it for the chain's difficulty
    /// and adds it to the chain with this miner as beneficiary; when the
    /// chain accepts it, the block's transactions leave the pool and the
    /// block is returned. When the chain refuses it, the pool is unchanged
    /// and the error carries the chain's error in its `Debug` form. Which
    /// block that is depends on the clock, through the timestamp.
    pub fn mine_next_block(&self, blockchain: &mut Blockchain, mempool: &mut Mempool, max_tx_per_block: usize) -> (r: Result<Block, String>)
        requires
            old(blockchain).wf(),
            old(mempool).wf(),
            old(blockchain).world().height() < u64::MAX,
        ensures
            final(blockchain).wf(),
            final(mempool).wf(),
            final(mempool).expected_nonces() == old(mempool).expected_nonces(),
            exists|ts: u64, built: Block, mined: Block|
                {
                    &&& mined_attempt(*old(blockchain), old(mempool).pending(), max_tx_per_block, ts, built, mined)
                    &&& match r {
                        Ok(block) => {
                            &&& block.same_as(mined)
                            &&& chain_step(*old(blockchain), mined, self.reward_address(), *final(blockchain), Ok(()))
                            &&& final(mempool).pending() == unmined(old(mempool).pending(), mined.transactions@)
                        },
                        Err(msg) => {
                            &&& exists|e: StateError|
                                {
                                    &&& chain_step(*old(blockchain), mined, self.reward_address(), *final(blockchain), Err(e))
                                    &&& msg@ == block_failure_prefix() + state_error_debug(e)
                                }
                            &&& final(mempool).pending() == old(mempool).pending()
                        },
                    }
                },
    {
        let candiate_tsx = mempool.get_prioritized_transactions(max_tx_per_block);
        let next_index = blockchain.height() + 1;
        let prev_hash = blockchain.latest_hash();
        let difficulty = blockchain.difficulty();
        let mut new_block = Block::new(next_index, prev_hash, candiate_tsx.clone(), difficulty, 0);
        let ghost built = new_block;
        let _ = new_block.mine(difficulty);
        let offered = new_block.clone();
        let ghost mined = offered;
        let miner_address = self.address();
        let outcome = blockchain.add_block(offered, &miner_address);
        assert(mined_attempt(*old(blockchain), old(mempool).pending(), max_tx_per_block, built.header.timestamp, built, mined));
        match outcome {
            Ok(()) => {},
            Err(e) => {
                proof {
                    reveal_strlit("Block execution failed: ");
                }
                let mut msg = String::from_str("Block execution failed: ");
                let reason = e.debug_string();
                msg.append(reason.as_str());
                let r: Result<Block, String> = Err(msg);
                assert(chain_step(*old(blockchain), mined, self.reward_address(), *blockchain, Err(e)));
                return r;
            },
        }
        mempool.remove_mined_transactions(candiate_tsx.as_slice());
        assert(new_block.transactions@ == candiate_tsx@);
        Ok(new_block)
    }
}

} // verus!
