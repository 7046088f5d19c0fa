//! Blocks: a header committing to the previous block and to the
//! transactions, and the proof-of-work search over the header's nonce.

use vstd::prelude::*;

use crate::constants::DEFAULT_DIFFICULTY;
use crate::crypto::hash::{sha256_digest, zero_bytes32};
use crate::encoding::{push_bytes, push_u64_le, u64_le};
use crate::interfaces::storable::Storable;
use crate::transaction::Transaction;

verus! {

#[verifier::external_type_specification]
#[verifier::external_body]
pub struct ExSystemTimeError(std::time::SystemTimeError);

/// `UNIX_EPOCH.elapsed()`: the time since the epoch by the system clock, or
/// the clock's error when it stands before the epoch. Nothing is claimed.
#[verifier::external_body]
fn elapsed_since_epoch() -> (r: Result<std::time::Duration, std::time::SystemTimeError>) {
    std::time::UNIX_EPOCH.elapsed()
}

/// `Duration::as_secs`: the whole seconds of `d`. Nothing is claimed.
#[verifier::external_body]
fn whole_seconds(d: &std::time::Duration) -> (r: u64) {
    d.as_secs()
}

/// Seconds since the Unix epoch by the system clock, 0 where the clock
/// stands before the epoch.
fn current_unix_time() -> (r: u64) {
    match elapsed_since_epoch() {
        Ok(d) => whole_seconds(&d),
        Err(_) => 0,
    }
}

/// The ASCII bytes of `empty_block`, whose digest is the Merkle root of a
/// block without transactions.
pub open spec fn empty_block_tag() -> Seq<u8> {
    seq![101u8, 109, 112, 116, 121, 95, 98, 108, 111, 99, 107]
}

/// The identifiers of `txs`, concatenated in order.
pub open spec fn concat_ids(txs: Seq<Transaction>) -> Seq<u8>
    decreases txs.len(),
{
    if txs.len() == 0 {
        Seq::empty()
    } else {
        concat_ids(txs.drop_last()) + txs.last().id()
    }
}

/// The Merkle root committed to by a block holding `txs`.
pub open spec fn merkle_root_of(txs: Seq<Transaction>) -> Seq<u8> {
    if txs.len() == 0 {
        sha256_digest(empty_block_tag())
    } else {
        sha256_digest(concat_ids(txs))
    }
}

/// Whether the first `difficulty` bytes of `hash` (all of them, if it has
/// fewer) are zero.
pub open spec fn meets_difficulty(hash: Seq<u8>, difficulty: usize) -> bool {
    forall|i: int| 0 <= i < difficulty && i < hash.len() ==> #[trigger] hash[i] == 0
}

/// A block's header.
#[derive(Clone, Copy, Debug, PartialEq, Eq)]
pub struct BlockHeader {
    pub index: u64,
    pub timestamp: u64,
    pub previous_hash: crate::crypto::hash::Hash,
    pub merkle_root: crate::crypto::hash::Hash,
    pub nonce: u64,
    pub difficulty: usize,
}

impl BlockHeader {
    /// The hashed form of the header: index and timestamp, both digests,
    /// nonce and difficulty, integers as little-endian `u64`s.
    pub open spec fn encoding(self) -> Seq<u8> {
        u64_le(self.index) + u64_le(self.timestamp) + self.previous_hash.0@ + self.merkle_root.0@
            + u64_le(self.nonce) + u64_le(self.difficulty as u64)
    }

    /// The digest of the header.
    pub open spec fn digest(self) -> Seq<u8> {
        sha256_digest(self.encoding())
    }

    /// The same header with nonce `nonce`.
    pub open spec fn with_nonce(self, nonce: u64) -> BlockHeader {
        BlockHeader { nonce, ..self }
    }

    /// Whether the header with nonce `nonce` hashes to a digest that meets
    /// `difficulty`.
    pub open spec fn solves(self, nonce: u64, difficulty: usize) -> bool {
        meets_difficulty(self.with_nonce(nonce).digest(), difficulty)
    }

    /// The hashed form of the header.
    pub fn to_bytes(&self) -> (r: Vec<u8>)
        ensures
            r@ == self.encoding(),
    {
        let mut out: Vec<u8> = Vec::new();
        push_u64_le(&mut out, self.index);
        push_u64_le(&mut out, self.timestamp);
        push_bytes(&mut out, &self.previous_hash.0);
        push_bytes(&mut out, &self.merkle_root.0);
        push_u64_le(&mut out, self.nonce);
        push_u64_le(&mut out, self.difficulty as u64);
        assert(out@ =~= self.encoding());
        out
    }

    /// The digest of the header.
    pub fn calculate_hash(&self) -> (r: crate::crypto::hash::Hash)
        ensures
            r.0@ == self.digest(),
    {
        let bytes = self.to_bytes();
        crate::crypto::hash::Hash::digest(&bytes)
    }
}

/// A header, the transactions it commits to, and the digest it was mined to.
#[derive(Debug, PartialEq, Eq)]
pub struct Block {
    pub header: BlockHeader,
    pub transactions: Vec<Transaction>,
    pub hash: crate::crypto::hash::Hash,
}

/// What a nonce search that starts from `start` (with digest field
/// `start_hash`) leaves in `after` when it searches for `difficulty`: only
/// the nonce moved, no nonce passed over solves the header, and either the
/// nonce reached solves it and the digest field holds its digest, or the
/// search ran out at `u64::MAX` and left the digest field alone.
pub open spec fn nonce_search(start: BlockHeader, start_hash: Seq<u8>, after: Block, difficulty: usize) -> bool {
    &&& after.header == start.with_nonce(after.header.nonce)
    &&& start.nonce <= after.header.nonce
    &&& forall|n: u64| start.nonce <= n < after.header.nonce ==> !#[trigger] start.solves(n, difficulty)
    &&& (search_solved(after, difficulty) || search_exhausted(start_hash, after, difficulty))
}

/// The search stopped at a nonce that solves the header.
pub open spec fn search_solved(after: Block, difficulty: usize) -> bool {
    &&& after.hash.0@ == after.header.digest()
    &&& meets_difficulty(after.hash.0@, difficulty)
}

/// The search tried every nonce up to `u64::MAX` without success.
pub open spec fn search_exhausted(start_hash: Seq<u8>, after: Block, difficulty: usize) -> bool {
    &&& after.header.nonce == u64::MAX
    &&& !meets_difficulty(after.header.digest(), difficulty)
    &&& after.hash.0@ == start_hash
}

impl Block {
    /// Whether `self` and `other` hold the same header, transactions and digest.
    pub open spec fn same_as(self, other: Block) -> bool {
        &&& self.header == other.header
        &&& self.transactions@ == other.transactions@
        &&& self.hash == other.hash
    }

    /// Whether the block commits to its transactions, carries its header's
    /// digest, and that digest meets `difficulty`.
    pub open spec fn valid_at(self, difficulty: usize) -> bool {
        &&& merkle_root_of(self.transactions@) == self.header.merkle_root.0@
        &&& self.header.digest() == self.hash.0@
        &&& meets_difficulty(self.hash.0@, difficulty)
    }

    /// What `new_at` builds before mining: the given fields, the Merkle root
    /// of the transactions, nonce `nonce`.
    pub open spec fn unmined_header(index: u64, timestamp: u64, previous_hash: crate::crypto::hash::Hash, merkle_root: crate::crypto::hash::Hash, difficulty: usize, nonce: u64) -> BlockHeader {
        BlockHeader { index, timestamp, previous_hash, merkle_root, nonce, difficulty }
    }

    /// A block over `transactions`, stamped with `timestamp`, mined for
    /// `DEFAULT_DIFFICULTY` from nonce `nonce`.
    pub fn new_at(index: u64, previous_hash: crate::crypto::hash::Hash, transactions: Vec<Transaction>, difficulty: usize, nonce: u64, timestamp: u64) -> (r: Block)
        ensures
            r.header.merkle_root.0@ == merkle_root_of(transactions@),
            r.transactions@ == transactions@,
            nonce_search(
                Self::unmined_header(index, timestamp, previous_hash, r.header.merkle_root, difficulty, nonce),
                zero_bytes32(),
                r,
                DEFAULT_DIFFICULTY,
            ),
    {
        let merkle_root = Self::calculate_merkle_root(&transactions);
        let header = BlockHeader { index, timestamp, previous_hash, merkle_root, difficulty, nonce };
        let mut block = Block { header, transactions, hash: crate::crypto::hash::Hash::default() };
        let _ = block.mine(DEFAULT_DIFFICULTY);
        block
    }

    /// A block over `transactions`, stamped with the current time, mined for
    /// `DEFAULT_DIFFICULTY` from nonce `nonce`.
    pub fn new(index: u64, previous_hash: crate::crypto::hash::Hash, transactions: Vec<Transaction>, difficulty: usize, nonce: u64) -> (r: Block)
        ensures
            r.header.merkle_root.0@ == merkle_root_of(transactions@),
            r.transactions@ == transactions@,
            nonce_search(
                Self::unmined_header(index, r.header.timestamp, previous_hash, r.header.merkle_root, difficulty, nonce),
                zero_bytes32(),
                r,
                DEFAULT_DIFFICULTY,
            ),
    {
        let timestamp = current_unix_time();
        Self::new_at(index, previous_hash, transactions, difficulty, nonce, timestamp)
    }

    /// The Merkle root of `transactions`: the digest of their identifiers
    /// concatenated, or of `empty_block` where there are none.
    pub fn calculate_merkle_root(transactions: &[Transaction]) -> (r: crate::crypto::hash::Hash)
        ensures
            r.0@ == merkle_root_of(transactions@),
            transactions@.len() == 0 ==> r.0@ == sha256_digest(empty_block_tag()),
            transactions@.len() > 0 ==> r.0@ == sha256_digest(
                transactions@.map_values(|t: Transaction| t.id()).flatten(),
            ),
    {
        proof {
            if transactions@.len() > 0 {
                lemma_merkle_root_of_nonempty(transactions@);
            }
        }
        if transactions.len() == 0 {
            let tag: [u8; 11] = [101, 109, 112, 116, 121, 95, 98, 108, 111, 99, 107];
            assert(tag@ =~= empty_block_tag());
            return crate::crypto::hash::Hash::digest(&tag);
        }
        let mut combined_bytes: Vec<u8> = Vec::new();
        let n = transactions.len();
        let mut i: usize = 0;
        while i < n
            invariant
                0 <= i <= n,
                n == transactions@.len(),
                combined_bytes@ == concat_ids(transactions@.subrange(0, i as int)),
            decreases n - i,
        {
            let id = transactions[i].hash();
            push_bytes(&mut combined_bytes, id.as_bytes());
            proof {
                let s = transactions@.subrange(0, i + 1);
                assert(s.drop_last() =~= transactions@.subrange(0, i as int));
                assert(s.last() == transactions@[i as int]);
            }
            i += 1;
        }
        assert(transactions@.subrange(0, n as int) =~= transactions@);
        crate::crypto::hash::Hash::digest(&combined_bytes)
    }

    /// Whether the first `difficulty` bytes of `hash` are zero.
    pub fn satisfies_difficulty(hash: &crate::crypto::hash::Hash, difficulty: usize) -> (r: bool)
        ensures
            r == meets_difficulty(hash.0@, difficulty),
            r <==> (forall|i: int| 0 <= i < difficulty && i < 32 ==> hash.0@[i] == 0),
    {
        let bound = if difficulty < 32 { difficulty } else { 32 };
        let mut i: usize = 0;
        while i < bound
            invariant
                0 <= i <= bound,
                bound <= 32,
                bound == difficulty || bound == 32,
                difficulty >= bound,
                forall|j: int| 0 <= j < i ==> hash.0@[j] == 0,
            decreases bound - i,
        {
            if hash.0[i] != 0 {
                return false;
            }
            i += 1;
        }
        true
    }

    /// The first block of a chain: index 0, no predecessor, no transactions,
    /// `DEFAULT_DIFFICULTY` in its header whatever difficulty is asked for.
    pub fn gensis(_difficulty: usize) -> (r: Block)
        ensures
            r.header.merkle_root.0@ == merkle_root_of(Seq::empty()),
            r.transactions@ == Seq::<Transaction>::empty(),
            nonce_search(
                Self::unmined_header(0, r.header.timestamp, r.header.previous_hash, r.header.merkle_root, DEFAULT_DIFFICULTY, 0),
                zero_bytes32(),
                r,
                DEFAULT_DIFFICULTY,
            ),
            r.header.previous_hash.0@ == zero_bytes32(),
    {
        Self::new(0, crate::crypto::hash::Hash::default(), Vec::new(), DEFAULT_DIFFICULTY, 0)
    }

    /// Whether the block commits to its transactions, carries its header's
    /// digest, and meets `difficulty`.
    pub fn is_valid(&self, difficulty: usize) -> (r: bool)
        ensures
            r == self.valid_at(difficulty),
            r ==> self.header.merkle_root.0@ == merkle_root_of(self.transactions@),
            r ==> self.hash.0@ == self.header.digest(),
            r ==> meets_difficulty(self.hash.0@, difficulty),
            self.header.merkle_root.0@ != merkle_root_of(self.transactions@) ==> !r,
    {
        let expected_merkle = Self::calculate_merkle_root(&self.transactions);
        if self.header.merkle_root != expected_merkle {
            return false;
        }
        let calculated_hash = self.header.calculate_hash();
        calculated_hash == self.hash && Self::satisfies_difficulty(&self.hash, difficulty)
    }

    /// Searches the nonces from the current one upwards for one whose header
    /// digest meets `difficulty`, and records that digest. Returns whether
    /// one was found before `u64::MAX` ran out.
    pub fn mine(&mut self, difficulty: usize) -> (found: bool)
        ensures
            final(self).transactions@ == old(self).transactions@,
            nonce_search(old(self).header, old(self).hash.0@, *final(self), difficulty),
            found == search_solved(*final(self), difficulty),
    {
        let ghost start = self.header;
        loop
            invariant
                self.transactions@ == old(self).transactions@,
                self.hash == old(self).hash,
                self.header == start.with_nonce(self.header.nonce),
                start == old(self).header,
                start.nonce <= self.header.nonce,
                forall|n: u64| start.nonce <= n < self.header.nonce ==> !#[trigger] start.solves(n, difficulty),
            decreases u64::MAX - self.header.nonce,
        {
            let hash = self.header.calculate_hash();
            if Self::satisfies_difficulty(&hash, difficulty) {
                self.hash = hash;
                return true;
            }
            assert(start.solves(self.header.nonce, difficulty) == false) by {
                assert(start.with_nonce(self.header.nonce) == self.header);
            }
            if self.header.nonce == u64::MAX {
                return false;
            }
            self.header.nonce = self.header.nonce + 1;
        }
    }
}

impl Clone for Block {
    fn clone(&self) -> (r: Block)
        ensures
            r.same_as(*self),
    {
        let transactions = self.transactions.clone();
        proof {
            assert(transactions@ =~= self.transactions@);
        }
        Block { header: self.header, transactions, hash: self.hash }
    }
}

/// A block that a nonce search solved, over transactions its Merkle root
/// commits to, is valid at the difficulty searched for.
pub proof fn lemma_solved_block_is_valid(block: Block, difficulty: usize)
    requires
        merkle_root_of(block.transactions@) == block.header.merkle_root.0@,
        search_solved(block, difficulty),
    ensures
        block.valid_at(difficulty),
{
}

/// The identifiers of `txs` laid end to end are what `concat_ids` joins.
proof fn lemma_concat_ids_flatten(txs: Seq<Transaction>)
    ensures
        concat_ids(txs) == txs.map_values(|t: Transaction| t.id()).flatten(),
    decreases txs.len(),
{
    let ids = txs.map_values(|t: Transaction| t.id());
    ids.lemma_flatten_and_flatten_alt_are_equivalent();
    if txs.len() > 0 {
        let shorter = txs.drop_last();
        lemma_concat_ids_flatten(shorter);
        assert(shorter.map_values(|t: Transaction| t.id()) =~= ids.drop_last());
        ids.drop_last().lemma_flatten_and_flatten_alt_are_equivalent();
    } else {
        assert(ids =~= Seq::<Seq<u8>>::empty());
    }
}

/// For every non-empty list of transactions the Merkle root is the digest
/// of their identifiers laid end to end in order; only the empty list gets
/// the digest of the `empty_block` tag.
pub proof fn lemma_merkle_root_of_nonempty(txs: Seq<Transaction>)
    ensures
        txs.len() > 0 ==> merkle_root_of(txs) == sha256_digest(txs.map_values(|t: Transaction| t.id()).flatten()),
        txs.len() == 0 ==> merkle_root_of(txs) == sha256_digest(seq![101u8, 109, 112, 116, 121, 95, 98, 108, 111, 99, 107]),
{
    lemma_concat_ids_flatten(txs);
}

/// The Merkle root of one transaction is the digest of its identifier.
pub proof fn lemma_merkle_root_of_one(tx: Transaction)
    ensures
        merkle_root_of(seq![tx]) == sha256_digest(tx.id()),
{
    lemma_merkle_root_of_nonempty(seq![tx]);
    let ids = seq![tx].map_values(|t: Transaction| t.id());
    assert(ids =~= seq![tx.id()]);
    ids.lemma_flatten_one_element();
}

/// A block valid at some difficulty commits to exactly its transactions:
/// its header's Merkle root is theirs. So the same header and digest over
/// transactions with another Merkle root is valid at no difficulty.
pub proof fn lemma_valid_block_commits(block: Block, d: usize, swapped: Block, e: usize)
    requires
        block.valid_at(d),
        swapped.header == block.header,
        swapped.hash == block.hash,
        merkle_root_of(swapped.transactions@) != merkle_root_of(block.transactions@),
    ensures
        block.header.merkle_root.0@ == merkle_root_of(block.transactions@),
        block.hash.0@ == block.header.digest(),
        !swapped.valid_at(e),
{
}

/// Meeting one more byte of difficulty is meeting the difficulty and having
/// one more leading zero byte, where the digest is that long.
pub proof fn lemma_difficulty_step(hash: Seq<u8>, d: usize)
    requires
        d < usize::MAX,
    ensures
        meets_difficulty(hash, (d + 1) as usize) <==> (meets_difficulty(hash, d) && (d < hash.len() ==> hash[d as int] == 0)),
        meets_difficulty(hash, 0),
{
    if meets_difficulty(hash, d) && (d < hash.len() ==> hash[d as int] == 0) {
        assert forall|i: int| 0 <= i < d + 1 && i < hash.len() implies #[trigger] hash[i] == 0 by {
            if i < d {
                assert(hash[i] == 0);
            }
        }
    }
    if meets_difficulty(hash, (d + 1) as usize) {
        if d < hash.len() {
            assert(hash[d as int] == 0);
        }
    }
}

} // verus!
