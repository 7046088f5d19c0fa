//! The chain of accepted blocks over a world state.

use vstd::prelude::*;

use crate::account::AccountModel;
use crate::block::{merkle_root_of, nonce_search, Block};
use crate::constants::DEFAULT_DIFFICULTY;
use crate::crypto::hash::zero_bytes32;
use crate::crypto::keys::address::Address;
use crate::error::StateError;
use crate::state::{block_run, credited, fee_overflow_text, fees_of, lemma_block_run_collects_fees, transfer_error, State};
use crate::text::{decimal_string, decimal_text, hex_text};
use crate::transaction::Transaction;

verus! {

/// The expected-value text of the error for a block that fails its own
/// checks at difficulty `d`.
pub open spec fn pow_failure_expected(d: usize) -> Seq<char> {
    "Valid PoW block at diff "@ + decimal_text(d as nat)
}

/// The found-value text of the error for a block that fails its own checks.
pub open spec fn pow_failure_got() -> Seq<char> {
    "Invalid block header or proof-of-work"@
}

/// Whether the state would accept `block` as linked: a state without blocks
/// accepts any predecessor; otherwise it must be the state's last digest.
pub open spec fn state_links(state: State, block: Block) -> bool {
    !(state.height() > 0 && block.header.previous_hash.0@ != state.last_hash())
}

/// `new` holds the same blocks and the same world state as `old`.
pub open spec fn chain_unchanged(old: Blockchain, new: Blockchain) -> bool {
    &&& new.chain() == old.chain()
    &&& new.world().wf()
    &&& new.world().accounts() == old.world().accounts()
    &&& new.world().height() == old.world().height()
    &&& new.world().last_hash() == old.world().last_hash()
}

/// What `add_block` does with `block` on `old`, mined by `miner`: the
/// checks in order (the block's own validity at the chain's difficulty, its
/// link to the chain's tip, its index, its link to the state), each refusal
/// leaving everything as it was; then the block's transactions are applied
/// as `block_run` describes; where all are accepted the miner is credited
/// the fees and the block is appended.
pub open spec fn chain_step(old: Blockchain, block: Block, miner: Address, new: Blockchain, r: Result<(), StateError>) -> bool {
    let d = old.required_difficulty();
    let tip = old.chain().last();
    let h = old.world().height();
    &&& new.required_difficulty() == d
    &&& new.chain().len() > 0
    &&& new.world().wf()
    &&& if !block.valid_at(d) {
        &&& r matches Err(StateError::InvalidPreviousHash { expected, got }) && expected@ == pow_failure_expected(d) && got@ == pow_failure_got()
        &&& chain_unchanged(old, new)
    } else if block.header.previous_hash.0@ != tip.hash.0@ {
        &&& r matches Err(StateError::InvalidPreviousHash { expected, got }) && expected@ == hex_text(tip.hash.0@) && got@ == hex_text(block.header.previous_hash.0@)
        &&& chain_unchanged(old, new)
    } else if block.header.index != h + 1 {
        &&& r == Err::<(), StateError>(StateError::InvalidBlockHeight { current: h, expected: (h + 1) as u64, got: block.header.index })
        &&& chain_unchanged(old, new)
    } else if !state_links(old.world(), block) {
        &&& r matches Err(StateError::InvalidPreviousHash { expected, got }) && expected@ == hex_text(old.world().last_hash()) && got@ == hex_text(block.header.previous_hash.0@)
        &&& chain_unchanged(old, new)
    } else {
        let run = block_run(old.world().accounts(), block.transactions@, block.transactions@.len());
        if run.2 < 0 {
            &&& r is Ok
            &&& new.chain().len() == old.chain().len() + 1
            &&& new.chain().drop_last() == old.chain()
            &&& new.chain().last().same_as(block)
            &&& new.world().accounts() == credited(run.0, miner, run.1 as u64)
            &&& new.world().height() == block.header.index
            &&& new.world().last_hash() == block.hash.0@
        } else {
            &&& new.chain() == old.chain()
            &&& new.world().accounts() == run.0
            &&& new.world().height() == h
            &&& new.world().last_hash() == old.world().last_hash()
            &&& run.3 ==> (r matches Err(e) && transfer_error(run.0, block.transactions@[run.2], e))
            &&& !run.3 ==> (r matches Err(StateError::BlockError { error }) && error@ == fee_overflow_text())
        }
    }
}

/// The shape of a chain: one block per height from genesis on; each block
/// after genesis carries its position as index, links to the block before
/// it and is valid at the chain's difficulty; and once a block has been
/// applied, the state's last digest is the tip's.
pub open spec fn chain_consistent(c: Blockchain) -> bool {
    let blocks = c.chain();
    &&& blocks.len() == c.world().height() + 1
    &&& c.world().height() > 0 ==> c.world().last_hash() == blocks.last().hash.0@
    &&& forall|i: int|
        0 < i < blocks.len() ==> {
            &&& (#[trigger] blocks[i]).header.index == i
            &&& blocks[i].header.previous_hash.0@ == blocks[i - 1].hash.0@
            &&& blocks[i].valid_at(c.required_difficulty())
        }
}

/// The accepted blocks, the world state they produced, and the difficulty
/// that every new block must meet.
#[derive(Debug)]
pub struct Blockchain {
    chain: Vec<Block>,
    pub state: State,
    difficulty: usize,
}

impl Blockchain {
    /// The chain holds at least its genesis block and the state is well formed.
    pub closed spec fn wf(&self) -> bool {
        self.chain@.len() > 0 && self.state.wf()
    }

    /// The world state.
    pub closed spec fn world(&self) -> State {
        self.state
    }

    /// The accepted blocks, genesis first.
    pub closed spec fn chain(&self) -> Seq<Block> {
        self.chain@
    }

    /// The difficulty that every new block must meet.
    pub closed spec fn required_difficulty(&self) -> usize {
        self.difficulty
    }

    /// A chain holding only a freshly mined genesis block for `difficulty`,
    /// over the empty state.
    pub fn new(difficulty: usize) -> (r: Blockchain)
        ensures
            r.wf(),
            r.required_difficulty() == difficulty,
            r.chain().len() == 1,
            r.chain()[0].header.previous_hash.0@ == zero_bytes32(),
            r.chain()[0].transactions@ == Seq::<Transaction>::empty(),
            r.chain()[0].header.merkle_root.0@ == merkle_root_of(Seq::empty()),
            nonce_search(
                Block::unmined_header(0, r.chain()[0].header.timestamp, r.chain()[0].header.previous_hash, r.chain()[0].header.merkle_root, DEFAULT_DIFFICULTY, 0),
                zero_bytes32(),
                r.chain()[0],
                DEFAULT_DIFFICULTY,
            ),
            r.world().wf(),
            chain_consistent(r),
            r.world().accounts() == Map::<Address, AccountModel>::empty(),
            r.world().height() == 0,
            r.world().last_hash() == zero_bytes32(),
    {
        let gensis_block = Block::gensis(difficulty);
        let state = State::new();
        let mut chain: Vec<Block> = Vec::new();
        chain.push(gensis_block);
        Blockchain { chain, state, difficulty }
    }

    /// The chain holding `chain` (genesis first) over `state`, requiring
    /// `difficulty` of new blocks; `None` where `chain` is empty.
    pub fn from_parts(chain: Vec<Block>, state: State, difficulty: usize) -> (r: Option<Blockchain>)
        requires
            state.wf(),
        ensures
            r is Some <==> chain@.len() > 0,
            r matches Some(c) ==> {
                &&& c.wf()
                &&& c.chain() == chain@
                &&& c.world() == state
                &&& c.required_difficulty() == difficulty
            },
    {
        if chain.len() == 0 {
            return None;
        }
        Some(Blockchain { chain, state, difficulty })
    }

    /// The accepted blocks, genesis first.
    pub fn blocks(&self) -> (r: &[Block])
        ensures
            r@ == self.chain(),
    {
        self.chain.as_slice()
    }

    /// The most recently accepted block.
    pub fn latest_block(&self) -> (r: &Block)
        requires
            self.wf(),
        ensures
            *r == self.chain().last(),
    {
        &self.chain[self.chain.len() - 1]
    }

    /// The height of the world state.
    pub fn height(&self) -> (r: u64)
        ensures
            r == self.world().height(),
    {
        self.state.block_height()
    }

    /// The digest of the most recently accepted block.
    pub fn latest_hash(&self) -> (r: crate::crypto::hash::Hash)
        requires
            self.wf(),
        ensures
            r == self.chain().last().hash,
    {
        self.latest_block().hash
    }

    pub fn state(&self) -> (r: &State)
        ensures
            *r == self.world(),
    {
        &self.state
    }

    pub fn difficulty(&self) -> (r: usize)
        ensures
            r == self.required_difficulty(),
    {
        self.difficulty
    }

    /// Checks `block` and, when it passes, applies it to the state, credits
    /// `miner_address` with its fees and appends it; see `chain_step`.
    pub fn add_block(&mut self, block: Block, miner_address: &Address) -> (r: Result<(), StateError>)
        requires
            old(self).wf(),
            old(self).world().height() < u64::MAX || !block.valid_at(old(self).required_difficulty())
                || block.header.previous_hash.0@ != old(self).chain().last().hash.0@,
        ensures
            final(self).wf(),
            chain_step(*old(self), block, *miner_address, *final(self), r),
    {
        if !block.is_valid(self.difficulty) {
            let mut expected = String::from_str("Valid PoW block at diff ");
            let digits = decimal_string(self.difficulty as u64);
            expected.append(digits.as_str());
            proof {
                reveal_strlit("Valid PoW block at diff ");
                reveal_strlit("Invalid block header or proof-of-work");
            }
            return Err(
                StateError::InvalidPreviousHash {
                    expected,
                    got: String::from_str("Invalid block header or proof-of-work"),
                },
            );
        }
        let latest = self.latest_hash();
        if block.header.previous_hash != latest {
            return Err(
                StateError::InvalidPreviousHash {
                    expected: latest.to_hex(),
                    got: block.header.previous_hash.to_hex(),
                },
            );
        }
        let height = self.height();
        if block.header.index != height + 1 {
            return Err(
                StateError::InvalidBlockHeight {
                    current: height,
                    expected: height + 1,
                    got: block.header.index,
                },
            );
        }
        let miner_fee = match self.state.apply_block(&block) {
            Ok(fee) => fee,
            Err(e) => {
                return Err(e);
            },
        };
        self.state.credit(*miner_address, miner_fee);
        self.chain.push(block);
        assert(self.chain@.drop_last() =~= old(self).chain@);
        Ok(())
    }
}

impl Clone for Blockchain {
    fn clone(&self) -> (r: Blockchain)
        ensures
            r.chain().len() == self.chain().len(),
            forall|i: int| 0 <= i < self.chain().len() ==> #[trigger] r.chain()[i].same_as(self.chain()[i]),
            r.world().wf() == self.world().wf(),
            r.world().accounts() == self.world().accounts(),
            r.world().height() == self.world().height(),
            r.world().last_hash() == self.world().last_hash(),
            r.required_difficulty() == self.required_difficulty(),
    {
        let chain = self.chain.clone();
        let state = self.state.clone();
        Blockchain { chain, state, difficulty: self.difficulty }
    }
}

/// The world state of a well-formed chain is well formed.
pub proof fn lemma_world_wf(chain: Blockchain)
    requires
        chain.wf(),
    ensures
        chain.world().wf(),
{
}

/// A block that the chain accepts is valid at the chain's difficulty,
/// follows the tip, carries the next index, and becomes the new tip at the
/// new height; its miner is credited the fees of all its transactions.
pub proof fn lemma_accepted_block(old: Blockchain, block: Block, miner: Address, new: Blockchain)
    requires
        chain_step(old, block, miner, new, Ok(())),
    ensures
        block.valid_at(old.required_difficulty()),
        block.header.previous_hash.0@ == old.chain().last().hash.0@,
        block.header.index == old.world().height() + 1,
        new.chain().len() == old.chain().len() + 1,
        new.chain().last().same_as(block),
        new.world().height() == block.header.index,
        new.world().accounts() == credited(
            block_run(old.world().accounts(), block.transactions@, block.transactions@.len()).0,
            miner,
            fees_of(block.transactions@) as u64,
        ),
{
    let txs = block.transactions@;
    lemma_block_run_collects_fees(old.world().accounts(), txs, txs.len());
    assert(txs.subrange(0, txs.len() as int) =~= txs);
}

/// Appending a valid block that links to the tip and carries the next
/// index keeps the chain's shape.
proof fn lemma_append_consistent(old: Blockchain, block: Block, new: Blockchain)
    requires
        chain_consistent(old),
        block.valid_at(old.required_difficulty()),
        block.header.previous_hash.0@ == old.chain().last().hash.0@,
        block.header.index == old.world().height() + 1,
        new.required_difficulty() == old.required_difficulty(),
        new.chain().len() == old.chain().len() + 1,
        new.chain().drop_last() == old.chain(),
        new.chain().last().same_as(block),
        new.world().height() == block.header.index,
        new.world().last_hash() == block.hash.0@,
    ensures
        chain_consistent(new),
{
    let d = old.required_difficulty();
    let ob = old.chain();
    let nb = new.chain();
    let last = nb.last();
    assert(last.valid_at(d)) by {
        assert(last.header == block.header);
        assert(last.transactions@ == block.transactions@);
        assert(last.hash == block.hash);
    }
    assert forall|i: int| 0 <= i < ob.len() implies nb[i] == ob[i] by {
        assert(nb.drop_last()[i] == nb[i]);
    }
    assert forall|i: int| 0 < i < nb.len() implies {
        &&& (#[trigger] nb[i]).header.index == i
        &&& nb[i].header.previous_hash.0@ == nb[i - 1].hash.0@
        &&& nb[i].valid_at(d)
    } by {
        assert(nb[i - 1] == ob[i - 1]);
        if i < ob.len() {
            assert(nb[i] == ob[i]);
        } else {
            assert(i == nb.len() - 1);
        }
    }
}

/// Adding a block keeps the chain's shape, whether the block is accepted
/// or refused.
pub proof fn lemma_chain_consistent_kept(old: Blockchain, block: Block, miner: Address, new: Blockchain, r: Result<(), StateError>)
    requires
        chain_consistent(old),
        chain_step(old, block, miner, new, r),
    ensures
        chain_consistent(new),
{
    let d = old.required_difficulty();
    let tip = old.chain().last();
    let h = old.world().height();
    if !block.valid_at(d) || block.header.previous_hash.0@ != tip.hash.0@ || block.header.index != h + 1
        || !state_links(old.world(), block) {
        assert(chain_unchanged(old, new));
    } else {
        let run = block_run(old.world().accounts(), block.transactions@, block.transactions@.len());
        if run.2 < 0 {
            lemma_append_consistent(old, block, new);
        } else {
            assert(new.chain() == old.chain());
        }
    }
}

/// A block that the chain refuses leaves its blocks as they were.
pub proof fn lemma_refused_block(old: Blockchain, block: Block, miner: Address, new: Blockchain, e: StateError)
    requires
        chain_step(old, block, miner, new, Err(e)),
    ensures
        new.chain() == old.chain(),
        new.required_difficulty() == old.required_difficulty(),
{
}

} // verus!
