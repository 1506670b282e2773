//! Blocks: the Merkle root of their transactions, their canonical hash,
//! the proof-of-work search and the checks that accept a block or a chain.

use vstd::prelude::*;
use vstd::string::*;
use vstd::utf8::encode_utf8;

use crate::canonical::{canonical_text_tells_lists_apart, times_collide};
use crate::crypto::{digest_of_bytes, digest_of_text, hash_sha256, hash_text};
use crate::encoding::{serialize_transactions, transactions_text};
use crate::error::{ApiError, IntegrityCheck};
use crate::models::{
    Block, BlockView, Transaction, TransactionView, block_views, clone_transactions, texts,
    transaction_views,
};
use crate::text::{decimal, decimal_text, is_prefix, joined, starts_with};
use crate::time::{Timestamp, utc_display_text};

verus! {

/// What every accepted block hash begins with.
pub const DIFFICULTY_PREFIX: &'static str = "00000";

/// The previous hash that a genesis block names.
pub const GENESIS_PREVIOUS_HASH: &'static str = "0";

/// The hash that a genesis block is given: it is assigned, not mined, and
/// begins with the difficulty prefix.
pub const GENESIS_HASH: &'static str = "0000000000000000000000000000000000000000000000000000000000000000";

/// The hashes of a list of transactions, in order.
pub open spec fn transaction_hashes(transactions: Seq<TransactionView>) -> Seq<Seq<char>> {
    transactions.map_values(|t: TransactionView| t.transaction_hash)
}

/// The lowest level of the tree: the digest of each transaction hash.
pub open spec fn merkle_leaves(hashes: Seq<Seq<char>>) -> Seq<Seq<char>> {
    hashes.map_values(|h: Seq<char>| digest_of_text(h))
}

/// A level made even: its last digest repeated when the count is odd.
pub open spec fn merkle_padded(level: Seq<Seq<char>>) -> Seq<Seq<char>> {
    if level.len() % 2 == 1 {
        level.push(level.last())
    } else {
        level
    }
}

/// The level above: the digest of each pair of neighbours, joined left
/// before right.
pub open spec fn merkle_parents(level: Seq<Seq<char>>) -> Seq<Seq<char>> {
    let padded = merkle_padded(level);
    Seq::new(
        padded.len() / 2,
        |i: int| digest_of_text(padded[2 * i] + padded[2 * i + 1]),
    )
}

/// The digest that is left when a level is reduced until one remains.
pub open spec fn merkle_fold(level: Seq<Seq<char>>) -> Seq<char>
    decreases level.len(),
{
    if level.len() <= 1 {
        level[0]
    } else {
        merkle_fold(merkle_parents(level))
    }
}

/// The root that stands for no transactions: the digest of nothing.
pub open spec fn empty_merkle_root() -> Seq<char> {
    digest_of_bytes(Seq::empty())
}

/// The Merkle root of a list of transaction hashes.
pub open spec fn merkle_root_of(hashes: Seq<Seq<char>>) -> Seq<char> {
    if hashes.len() == 0 {
        empty_merkle_root()
    } else {
        merkle_fold(merkle_leaves(hashes))
    }
}

/// The text that a block's hash is the digest of: index, timestamp,
/// transactions, previous hash, nonce, Merkle root and difficulty, in
/// that order.  The stored hash is no part of it.
pub open spec fn block_preimage(b: BlockView) -> Seq<char> {
    decimal_text(b.index) + utc_display_text(b.timestamp.nanos as int) + transactions_text(
        b.transactions,
    ) + b.previous_hash + decimal_text(b.nonce) + b.merkle_root + decimal_text(b.difficulty)
}

/// The canonical hash of a block's contents.
pub open spec fn block_hash_of(b: BlockView) -> Seq<char> {
    digest_of_text(block_preimage(b))
}

/// A hash carries the proof of work when it begins with the prefix.
pub open spec fn meets_difficulty(hash: Seq<char>) -> bool {
    is_prefix(DIFFICULTY_PREFIX@, hash)
}

/// The block that a mining attempt with `nonce` puts forward: its Merkle
/// root and hash are those of its contents.
pub open spec fn candidate_block(
    index: nat,
    transactions: Seq<TransactionView>,
    previous_hash: Seq<char>,
    difficulty: nat,
    timestamp: Timestamp,
    nonce: nat,
) -> BlockView {
    let draft = BlockView {
        index,
        timestamp,
        transactions,
        previous_hash,
        nonce,
        hash: Seq::empty(),
        merkle_root: merkle_root_of(transaction_hashes(transactions)),
        difficulty,
    };
    BlockView { hash: block_hash_of(draft), ..draft }
}

/// None of the nonces from `first` up to, but not including, `end` gives
/// the candidate a hash with the difficulty prefix.
pub open spec fn none_meets(
    index: nat,
    transactions: Seq<TransactionView>,
    previous_hash: Seq<char>,
    difficulty: nat,
    timestamp: Timestamp,
    first: nat,
    end: nat,
) -> bool {
    forall|n: nat|
        first <= n < end ==> !meets_difficulty(
            #[trigger] candidate_block(
                index,
                transactions,
                previous_hash,
                difficulty,
                timestamp,
                n,
            ).hash,
        )
}

/// `block` is what a search from the nonce `first` upwards finds: the
/// candidate of the first nonce whose hash has the difficulty prefix.
pub open spec fn first_mined(
    block: BlockView,
    index: nat,
    transactions: Seq<TransactionView>,
    previous_hash: Seq<char>,
    difficulty: nat,
    timestamp: Timestamp,
    first: nat,
) -> bool {
    &&& first <= block.nonce
    &&& block == candidate_block(
        index,
        transactions,
        previous_hash,
        difficulty,
        timestamp,
        block.nonce,
    )
    &&& meets_difficulty(block.hash)
    &&& none_meets(
        index,
        transactions,
        previous_hash,
        difficulty,
        timestamp,
        first,
        block.nonce,
    )
}

/// One more than the last 64-bit nonce.
pub open spec fn nonce_end() -> nat {
    u64::MAX as nat + 1
}

/// The first check that a block fails against the hash expected before
/// it, if it fails any.
pub open spec fn first_failed_check(b: BlockView, previous_hash: Seq<char>) -> Option<
    IntegrityCheck,
> {
    if !meets_difficulty(b.hash) {
        Some(IntegrityCheck::DifficultyPrefix)
    } else if b.previous_hash != previous_hash {
        Some(IntegrityCheck::PreviousHash)
    } else if b.merkle_root != merkle_root_of(transaction_hashes(b.transactions)) {
        Some(IntegrityCheck::MerkleRoot)
    } else if b.hash != block_hash_of(b) {
        Some(IntegrityCheck::BlockHash)
    } else {
        None
    }
}

/// A block is valid after `previous_hash` when it passes every check.
pub open spec fn block_valid(b: BlockView, previous_hash: Seq<char>) -> bool {
    first_failed_check(b, previous_hash) is None
}

/// A genesis block has index 0, no transactions, the previous hash `"0"`,
/// the Merkle root of nothing and a hash with the difficulty prefix.
pub open spec fn genesis_well_formed(b: BlockView) -> bool {
    &&& b.index == 0
    &&& b.transactions.len() == 0
    &&& b.previous_hash == GENESIS_PREVIOUS_HASH@
    &&& b.merkle_root == empty_merkle_root()
    &&& meets_difficulty(b.hash)
}

/// The block at `i` holds its place in the chain: the first is a genesis
/// block, every other is valid after the hash of the one before it.
pub open spec fn link_holds(chain: Seq<BlockView>, i: int) -> bool {
    if i == 0 {
        genesis_well_formed(chain[0])
    } else {
        block_valid(chain[i], chain[i - 1].hash)
    }
}

/// A chain is valid when every block holds its place.
pub open spec fn chain_valid(chain: Seq<BlockView>) -> bool {
    forall|i: int| 0 <= i < chain.len() ==> link_holds(chain, i)
}

/// The check that the block at `i` fails, for one that does not hold its
/// place.
pub open spec fn link_failure(chain: Seq<BlockView>, i: int) -> IntegrityCheck {
    if i == 0 {
        IntegrityCheck::Genesis
    } else {
        first_failed_check(chain[i], chain[i - 1].hash).unwrap()
    }
}

/// Why a block cannot follow `latest`, the last block of a chain, if it
/// cannot.  A chain without blocks takes a genesis block only.  Any
/// other block must pass every check against the hash of `latest` and
/// carry the index after its index.
pub open spec fn acceptance_failure(latest: Option<BlockView>, b: BlockView) -> Option<
    IntegrityCheck,
> {
    match latest {
        None => if genesis_well_formed(b) {
            None
        } else {
            Some(IntegrityCheck::Genesis)
        },
        Some(tip) => match first_failed_check(b, tip.hash) {
            Some(check) => Some(check),
            None => if b.index == tip.index + 1 {
                None
            } else {
                Some(IntegrityCheck::Index)
            },
        },
    }
}

/// The last block of a chain, if it has any.
pub open spec fn last_block(chain: Seq<BlockView>) -> Option<BlockView> {
    if chain.len() == 0 {
        None
    } else {
        Some(chain.last())
    }
}

/// Every block after the first names the hash of the block before it and
/// carries the index after its index.
pub open spec fn chain_linked(chain: Seq<BlockView>) -> bool {
    forall|i: int|
        0 < i < chain.len() ==> (#[trigger] chain[i]).previous_hash == chain[i - 1].hash
            && chain[i].index == chain[i - 1].index + 1
}

/// The chain's rules; it holds no state.
pub struct Blockchain;

impl Blockchain {
    /// Reduces the transactions' hashes to one digest.
    pub fn calculate_merkle_root(transactions: &[Transaction]) -> (root: String)
        ensures
            root@ == merkle_root_of(transaction_hashes(transaction_views(transactions@))),
    {
        let ghost hashes_in = transaction_hashes(transaction_views(transactions@));
        if transactions.len() == 0 {
            let nothing: Vec<u8> = Vec::new();
            return hash_sha256(nothing.as_slice());
        }
        let mut hashes: Vec<String> = Vec::new();
        let mut k: usize = 0;
        while k < transactions.len()
            invariant
                k <= transactions.len(),
                hashes.len() == k,
                forall|j: int|
                    0 <= j < k ==> hashes[j]@ == digest_of_text(
                        #[trigger] transactions[j].transaction_hash@,
                    ),
            decreases transactions.len() - k,
        {
            hashes.push(hash_text(transactions[k].transaction_hash.as_str()));
            k += 1;
        }
        assert(texts(hashes@) =~= merkle_leaves(hashes_in));
        while hashes.len() > 1
            invariant
                hashes.len() >= 1,
                merkle_fold(texts(hashes@)) == merkle_fold(merkle_leaves(hashes_in)),
            decreases hashes.len(),
        {
            let ghost level = texts(hashes@);
            if hashes.len() % 2 != 0 {
                let last = hashes[hashes.len() - 1].clone();
                hashes.push(last);
            }
            let mut parents: Vec<String> = Vec::new();
            let mut i: usize = 0;
            while i < hashes.len()
                invariant
                    i <= hashes.len(),
                    i % 2 == 0,
                    hashes.len() % 2 == 0,
                    parents.len() == i / 2,
                    forall|j: int|
                        0 <= j < parents.len() ==> #[trigger] parents[j]@ == digest_of_text(
                            hashes[2 * j]@ + hashes[2 * j + 1]@,
                        ),
                decreases hashes.len() - i,
            {
                let combined = joined(hashes[i].as_str(), hashes[i + 1].as_str());
                parents.push(hash_text(combined.as_str()));
                i += 2;
            }
            assert(texts(parents@) =~= merkle_parents(level));
            hashes = parents;
        }
        hashes[0].clone()
    }

    /// The part of a block's preimage that stands before the nonce.
    fn preimage_head(
        index: u64,
        timestamp: Timestamp,
        transactions: &[Transaction],
        previous_hash: &str,
    ) -> (head: String)
        ensures
            head@ == decimal_text(index as nat) + utc_display_text(timestamp.nanos as int)
                + transactions_text(transaction_views(transactions@)) + previous_hash@,
    {
        let mut head = decimal(index);
        head.append(timestamp.display().as_str());
        head.append(serialize_transactions(transactions).as_str());
        head.append(previous_hash);
        head
    }

    /// The digest of a preimage given in three parts.
    fn hash_parts(head: &str, nonce: u64, merkle_root: &str, difficulty: u32) -> (hash: String)
        ensures
            hash@ == digest_of_text(
                head@ + decimal_text(nonce as nat) + merkle_root@ + decimal_text(difficulty as nat),
            ),
    {
        let mut preimage = joined(head, decimal(nonce).as_str());
        preimage.append(merkle_root);
        preimage.append(decimal(difficulty as u64).as_str());
        hash_text(preimage.as_str())
    }

    /// The canonical hash of a block's contents; the stored hash plays no
    /// part in it.
    pub fn calculate_block_hash(block: &Block) -> (hash: String)
        ensures
            hash@ == block_hash_of(block@),
    {
        let head = Self::preimage_head(
            block.index,
            block.timestamp,
            block.transactions.as_slice(),
            block.previous_hash.as_str(),
        );
        Self::hash_parts(head.as_str(), block.nonce, block.merkle_root.as_str(), block.difficulty)
    }

    /// Searches the nonces from `first_nonce` to `last_nonce`, both
    /// included, for the first whose block hash carries the difficulty
    /// prefix, with the timestamp fixed beforehand, and returns that
    /// block.  `None` means that no nonce in the range will do.  A long
    /// search can so be run range by range, and given up between ranges.
    pub fn mine_block_between(
        index: u64,
        transactions: &[Transaction],
        previous_hash: &str,
        difficulty: u32,
        timestamp: Timestamp,
        first_nonce: u64,
        last_nonce: u64,
    ) -> (mined: Option<Block>)
        ensures
            match mined {
                Some(block) => {
                    &&& block.nonce <= last_nonce
                    &&& first_mined(
                        block@,
                        index as nat,
                        transaction_views(transactions@),
                        previous_hash@,
                        difficulty as nat,
                        timestamp,
                        first_nonce as nat,
                    )
                    &&& block_valid(block@, previous_hash@)
                },
                None => none_meets(
                    index as nat,
                    transaction_views(transactions@),
                    previous_hash@,
                    difficulty as nat,
                    timestamp,
                    first_nonce as nat,
                    last_nonce as nat + 1,
                ),
            },
    {
        if first_nonce > last_nonce {
            return None;
        }
        let ghost views = transaction_views(transactions@);
        let merkle_root = Self::calculate_merkle_root(transactions);
        let head = Self::preimage_head(index, timestamp, transactions, previous_hash);
        let mut nonce: u64 = first_nonce;
        loop
            invariant
                first_nonce <= nonce <= last_nonce,
                views == transaction_views(transactions@),
                merkle_root@ == merkle_root_of(transaction_hashes(views)),
                head@ == decimal_text(index as nat) + utc_display_text(timestamp.nanos as int)
                    + transactions_text(views) + previous_hash@,
                none_meets(
                    index as nat,
                    views,
                    previous_hash@,
                    difficulty as nat,
                    timestamp,
                    first_nonce as nat,
                    nonce as nat,
                ),
            decreases last_nonce - nonce,
        {
            let hash = Self::hash_parts(head.as_str(), nonce, merkle_root.as_str(), difficulty);
            if starts_with(hash.as_str(), DIFFICULTY_PREFIX) {
                let block = Block {
                    index,
                    timestamp,
                    transactions: clone_transactions(transactions),
                    previous_hash: String::from_str(previous_hash),
                    nonce,
                    hash,
                    merkle_root,
                    difficulty,
                };
                return Some(block);
            }
            if nonce == last_nonce {
                return None;
            }
            nonce += 1;
        }
    }

    /// Searches the nonces from 0 upwards for the first whose block hash
    /// carries the difficulty prefix, with the timestamp fixed beforehand,
    /// and returns that block.  `None` means that no 64-bit nonce will do.
    pub fn mine_block_at(
        index: u64,
        transactions: Vec<Transaction>,
        previous_hash: String,
        difficulty: u32,
        timestamp: Timestamp,
    ) -> (mined: Option<Block>)
        ensures
            match mined {
                Some(block) => {
                    &&& first_mined(
                        block@,
                        index as nat,
                        transaction_views(transactions@),
                        previous_hash@,
                        difficulty as nat,
                        timestamp,
                        0,
                    )
                    &&& block_valid(block@, previous_hash@)
                },
                None => none_meets(
                    index as nat,
                    transaction_views(transactions@),
                    previous_hash@,
                    difficulty as nat,
                    timestamp,
                    0,
                    nonce_end(),
                ),
            },
    {
        Self::mine_block_between(
            index,
            transactions.as_slice(),
            previous_hash.as_str(),
            difficulty,
            timestamp,
            0,
            u64::MAX,
        )
    }

    /// Mines a block stamped with the time at which the search begins:
    /// the search of `mine_block_at`, at the present time.
    pub fn mine_block(
        index: u64,
        transactions: Vec<Transaction>,
        previous_hash: String,
        difficulty: u32,
    ) -> (mined: Option<Block>)
        ensures
            match mined {
                Some(block) => {
                    &&& first_mined(
                        block@,
                        index as nat,
                        transaction_views(transactions@),
                        previous_hash@,
                        difficulty as nat,
                        block.timestamp,
                        0,
                    )
                    &&& block_valid(block@, previous_hash@)
                },
                None => exists|timestamp: Timestamp|
                    none_meets(
                        index as nat,
                        transaction_views(transactions@),
                        previous_hash@,
                        difficulty as nat,
                        timestamp,
                        0,
                        nonce_end(),
                    ),
            },
    {
        Self::mine_block_at(index, transactions, previous_hash, difficulty, Timestamp::now())
    }

    /// Names the first check, in order, that `block` fails: the difficulty
    /// prefix of its hash, the link to `previous_hash`, its Merkle root,
    /// its hash.  `None` means that it passes all four.
    pub fn check_block(block: &Block, previous_hash: &str) -> (failed: Option<IntegrityCheck>)
        ensures
            failed == first_failed_check(block@, previous_hash@),
    {
        if !starts_with(block.hash.as_str(), DIFFICULTY_PREFIX) {
            return Some(IntegrityCheck::DifficultyPrefix);
        }
        if !crate::text::same_text(block.previous_hash.as_str(), previous_hash) {
            return Some(IntegrityCheck::PreviousHash);
        }
        let root = Self::calculate_merkle_root(block.transactions.as_slice());
        if block.merkle_root != root {
            return Some(IntegrityCheck::MerkleRoot);
        }
        let hash = Self::calculate_block_hash(block);
        if block.hash != hash {
            return Some(IntegrityCheck::BlockHash);
        }
        None
    }

    /// Accepts `block` as the successor of the block whose hash is
    /// `previous_hash`.  The difficulty prefix is fixed, so the expected
    /// difficulty has no part in the verdict.
    pub fn validate_block(block: &Block, previous_hash: &str, difficulty: u32) -> (valid: bool)
        ensures
            valid == block_valid(block@, previous_hash@),
    {
        Self::check_block(block, previous_hash).is_none()
    }

    /// The genesis block, stamped `timestamp`.
    pub fn genesis_block_at(timestamp: Timestamp) -> (block: Block)
        ensures
            block@ == (BlockView {
                index: 0,
                timestamp,
                transactions: Seq::empty(),
                previous_hash: GENESIS_PREVIOUS_HASH@,
                nonce: 0,
                hash: GENESIS_HASH@,
                merkle_root: empty_merkle_root(),
                difficulty: 1,
            }),
            genesis_well_formed(block@),
    {
        let nothing: Vec<u8> = Vec::new();
        let block = Block {
            index: 0,
            timestamp,
            transactions: Vec::new(),
            previous_hash: String::from_str(GENESIS_PREVIOUS_HASH),
            nonce: 0,
            hash: String::from_str(GENESIS_HASH),
            merkle_root: hash_sha256(nothing.as_slice()),
            difficulty: 1,
        };
        assert(block@.transactions =~= Seq::empty());
        proof {
            genesis_hash_meets_difficulty();
        }
        block
    }

    /// The genesis block, stamped with the present time.
    pub fn create_genesis_block() -> (block: Block)
        ensures
            block@ == (BlockView {
                index: 0,
                timestamp: block.timestamp,
                transactions: Seq::empty(),
                previous_hash: GENESIS_PREVIOUS_HASH@,
                nonce: 0,
                hash: GENESIS_HASH@,
                merkle_root: empty_merkle_root(),
                difficulty: 1,
            }),
            genesis_well_formed(block@),
    {
        Self::genesis_block_at(Timestamp::now())
    }

    /// Audits a chain from its first block on.  An empty chain is valid.
    /// Otherwise the verdict comes with the index of the first block that
    /// does not hold its place, if there is one.
    pub fn validate_chain(blocks: &[Block]) -> (verdict: (bool, Option<usize>))
        ensures
            verdict.0 == chain_valid(block_views(blocks@)),
            verdict.0 == (verdict.1 is None),
            verdict.1 matches Some(at) ==> {
                &&& at < blocks.len()
                &&& !link_holds(block_views(blocks@), at as int)
                &&& forall|i: int| 0 <= i < at ==> link_holds(block_views(blocks@), i)
            },
    {
        match Self::audit_chain(blocks) {
            Ok(()) => (true, None),
            Err((at, _)) => (false, Some(at)),
        }
    }

    /// Audits a chain as `validate_chain` does and names, with the index
    /// of the first block that does not hold its place, the check it fails.
    pub fn audit_chain(blocks: &[Block]) -> (outcome: Result<(), (usize, IntegrityCheck)>)
        ensures
            (outcome is Ok) == chain_valid(block_views(blocks@)),
            outcome matches Err((at, check)) ==> {
                &&& at < blocks.len()
                &&& !link_holds(block_views(blocks@), at as int)
                &&& check == link_failure(block_views(blocks@), at as int)
                &&& forall|i: int| 0 <= i < at ==> link_holds(block_views(blocks@), i)
            },
    {
        let ghost chain = block_views(blocks@);
        if blocks.len() == 0 {
            return Ok(());
        }
        if !Self::is_genesis(&blocks[0]) {
            assert(!link_holds(chain, 0));
            return Err((0, IntegrityCheck::Genesis));
        }
        let mut i: usize = 1;
        while i < blocks.len()
            invariant
                1 <= i <= blocks.len(),
                chain == block_views(blocks@),
                forall|j: int| 0 <= j < i ==> link_holds(chain, j),
            decreases blocks.len() - i,
        {
            match Self::check_block(&blocks[i], blocks[i - 1].hash.as_str()) {
                Some(check) => {
                    assert(!link_holds(chain, i as int));
                    return Err((i, check));
                },
                None => {},
            }
            i += 1;
        }
        Ok(())
    }

    /// Decides whether `block` may follow `latest`, the last block of a
    /// chain, or begin a chain where there is no latest.
    pub fn accept_block(latest: Option<&Block>, block: &Block) -> (outcome: Result<(), ApiError>)
        ensures
            match outcome {
                Ok(()) => acceptance_failure(
                    match latest {
                        Some(tip) => Some(tip@),
                        None => None,
                    },
                    block@,
                ) is None,
                Err(e) => acceptance_failure(
                    match latest {
                        Some(tip) => Some(tip@),
                        None => None,
                    },
                    block@,
                ) matches Some(check) && e == ApiError::ChainIntegrityFailure(check),
            },
    {
        match latest {
            None => if Self::is_genesis(block) {
                Ok(())
            } else {
                Err(ApiError::ChainIntegrityFailure(IntegrityCheck::Genesis))
            },
            Some(tip) => match Self::check_block(block, tip.hash.as_str()) {
                Some(check) => Err(ApiError::ChainIntegrityFailure(check)),
                None => if tip.index < u64::MAX && block.index == tip.index + 1 {
                    Ok(())
                } else {
                    Err(ApiError::ChainIntegrityFailure(IntegrityCheck::Index))
                },
            },
        }
    }

    /// Puts `block` at the end of `chain` if it may follow the chain's
    /// last block, and leaves the chain as it was if it may not.  A chain
    /// that is valid and linked stays so.
    pub fn append_block(chain: &mut Vec<Block>, block: Block) -> (outcome: Result<(), ApiError>)
        ensures
            match outcome {
                Ok(()) => {
                    &&& acceptance_failure(last_block(block_views(old(chain)@)), block@) is None
                    &&& block_views(final(chain)@) == block_views(old(chain)@).push(block@)
                },
                Err(e) => {
                    &&& acceptance_failure(
                        last_block(block_views(old(chain)@)),
                        block@,
                    ) matches Some(check) && e == ApiError::ChainIntegrityFailure(check)
                    &&& block_views(final(chain)@) == block_views(old(chain)@)
                },
            },
            chain_valid(block_views(old(chain)@)) ==> chain_valid(block_views(final(chain)@)),
            chain_linked(block_views(old(chain)@)) ==> chain_linked(block_views(final(chain)@)),
    {
        let ghost before = block_views(chain@);
        let verdict = if chain.len() == 0 {
            Self::accept_block(None, &block)
        } else {
            assert(before.last() == chain[chain.len() - 1]@);
            Self::accept_block(Some(&chain[chain.len() - 1]), &block)
        };
        match verdict {
            Ok(()) => {
                proof {
                    accepted_block_extends_chain(before, block@);
                }
                chain.push(block);
                Ok(())
            },
            Err(e) => Err(e),
        }
    }

    /// Tells whether `block` is a genesis block.
    pub fn is_genesis(block: &Block) -> (yes: bool)
        ensures
            yes == genesis_well_formed(block@),
    {
        let nothing: Vec<u8> = Vec::new();
        block.index == 0 && block.transactions.len() == 0 && crate::text::same_text(
            block.previous_hash.as_str(),
            GENESIS_PREVIOUS_HASH,
        ) && block.merkle_root == hash_sha256(nothing.as_slice()) && starts_with(
            block.hash.as_str(),
            DIFFICULTY_PREFIX,
        )
    }
}

/// The outcome of validating a chain, for display.
#[derive(Clone, Debug, PartialEq, Eq)]
pub struct ChainReport {
    /// Whether every block holds its place.
    pub valid: bool,
    /// The number of blocks that were audited.
    pub total_blocks: usize,
    /// Empty for a valid chain; otherwise `Block N is invalid`, with the
    /// index of the first block that does not hold its place.
    pub error: String,
}

/// The block at `at` is the first of the chain that does not hold its
/// place.
pub open spec fn first_broken_link(chain: Seq<BlockView>, at: int) -> bool {
    &&& 0 <= at < chain.len()
    &&& !link_holds(chain, at)
    &&& forall|i: int| 0 <= i < at ==> link_holds(chain, i)
}

/// Validates a chain and reports the outcome in words: a valid chain has
/// an empty error text, an invalid one names the first block that fails.
pub fn validate_blockchain(blocks: &[Block]) -> (report: ChainReport)
    ensures
        report.valid == chain_valid(block_views(blocks@)),
        report.total_blocks == blocks.len(),
        report.valid ==> report.error@ == Seq::<char>::empty(),
        !report.valid ==> exists|at: int|
            #[trigger] first_broken_link(block_views(blocks@), at) && report.error@ == "Block "@
                + decimal_text(at as nat) + " is invalid"@,
{
    match Blockchain::validate_chain(blocks) {
        (_, None) => ChainReport { valid: true, total_blocks: blocks.len(), error: String::new() },
        (_, Some(at)) => {
            let mut error = String::from_str("Block ");
            error.append(decimal(at as u64).as_str());
            error.append(" is invalid");
            assert(first_broken_link(block_views(blocks@), at as int));
            ChainReport { valid: false, total_blocks: blocks.len(), error }
        },
    }
}

/// The hash that a genesis block is given carries the difficulty prefix.
pub proof fn genesis_hash_meets_difficulty()
    ensures
        meets_difficulty(GENESIS_HASH@),
{
    reveal_strlit("00000");
    reveal_strlit("0000000000000000000000000000000000000000000000000000000000000000");
    assert(GENESIS_HASH@.subrange(0, 5) =~= DIFFICULTY_PREFIX@);
}

/// In a valid chain the hash of every block carries the difficulty prefix.
pub proof fn valid_chain_is_worked(chain: Seq<BlockView>, i: int)
    requires
        chain_valid(chain),
        0 <= i < chain.len(),
    ensures
        meets_difficulty(chain[i].hash),
{
    assert(link_holds(chain, i));
}

/// A transaction list has one Merkle root: lists with the same hashes in
/// the same order have the same root.
pub proof fn merkle_root_is_determined(a: Seq<TransactionView>, b: Seq<TransactionView>)
    requires
        transaction_hashes(a) == transaction_hashes(b),
    ensures
        merkle_root_of(transaction_hashes(a)) == merkle_root_of(transaction_hashes(b)),
{
}

/// The Merkle root of no transactions is the digest of the empty input.
pub proof fn merkle_root_of_nothing()
    ensures
        merkle_root_of(transaction_hashes(Seq::empty())) == digest_of_bytes(Seq::empty()),
{
}

/// The Merkle root of a single transaction is the digest of its hash.
pub proof fn merkle_root_of_one(hash: Seq<char>)
    ensures
        merkle_root_of(seq![hash]) == digest_of_text(hash),
{
}

/// Repeating the last hash of a list of odd length, three or more, leaves
/// the Merkle root as it was: the root does not tell such lists apart.
pub proof fn merkle_root_ignores_repeated_last(hashes: Seq<Seq<char>>)
    requires
        hashes.len() >= 3,
        hashes.len() % 2 == 1,
    ensures
        merkle_root_of(hashes.push(hashes.last())) == merkle_root_of(hashes),
{
    let longer = hashes.push(hashes.last());
    let level = merkle_leaves(hashes);
    assert(merkle_leaves(longer) =~= merkle_padded(level));
}

/// A block just mined is valid after the hash it was mined on: whenever a
/// candidate's hash carries the difficulty prefix, the candidate passes
/// every check.
pub proof fn mined_block_is_valid(
    index: nat,
    transactions: Seq<TransactionView>,
    previous_hash: Seq<char>,
    difficulty: nat,
    timestamp: Timestamp,
    nonce: nat,
)
    requires
        meets_difficulty(
            candidate_block(index, transactions, previous_hash, difficulty, timestamp, nonce).hash,
        ),
    ensures
        block_valid(
            candidate_block(index, transactions, previous_hash, difficulty, timestamp, nonce),
            previous_hash,
        ),
{
}

/// A valid block whose previous hash is replaced by another is no longer
/// valid after the same predecessor.
pub proof fn changed_previous_hash_is_rejected(
    block: BlockView,
    previous_hash: Seq<char>,
    forged: Seq<char>,
)
    requires
        block_valid(block, previous_hash),
        forged != block.previous_hash,
    ensures
        !block_valid(BlockView { previous_hash: forged, ..block }, previous_hash),
{
}

/// A valid block whose contents are changed while its stored hash is
/// kept is no longer valid, unless the text that is hashed for the
/// changed block has the very digest of the text hashed for the block.
pub proof fn changed_contents_are_rejected(
    block: BlockView,
    changed: BlockView,
    previous_hash: Seq<char>,
)
    requires
        block_valid(block, previous_hash),
        changed.hash == block.hash,
    ensures
        !block_valid(changed, previous_hash) || digest_of_text(block_preimage(changed))
            == digest_of_text(block_preimage(block)),
{
}

/// The two texts differ and share a digest.
pub open spec fn collide(x: Seq<char>, y: Seq<char>) -> bool {
    x != y && digest_of_text(x) == digest_of_text(y)
}

/// The text that is hashed for the entry at `k` of the level above: the
/// pair of neighbours at `2k`, joined left before right.
pub open spec fn joined_pair(level: Seq<Seq<char>>, k: int) -> Seq<char> {
    merkle_padded(level)[2 * k] + merkle_padded(level)[2 * k + 1]
}

/// The pairs hashed at place `k` above the two levels collide.
pub open spec fn pair_collides(a: Seq<Seq<char>>, b: Seq<Seq<char>>, k: int) -> bool {
    collide(joined_pair(a, k), joined_pair(b, k))
}

/// In reducing two levels, equally long, to one digest each, the pairs
/// hashed at some same place of some same level collide.
pub open spec fn levels_collide(a: Seq<Seq<char>>, b: Seq<Seq<char>>) -> bool
    decreases a.len(),
{
    if a.len() <= 1 || a.len() != b.len() {
        false
    } else {
        (exists|k: int| 0 <= k < merkle_parents(a).len() && #[trigger] pair_collides(a, b, k))
            || levels_collide(merkle_parents(a), merkle_parents(b))
    }
}

/// In computing the Merkle roots of two lists of transaction hashes, two
/// texts hashed at the same place collide: two hashes at the same place
/// of the lists, or two pairs at the same place of the same level.
pub open spec fn merkle_collision(a: Seq<Seq<char>>, b: Seq<Seq<char>>) -> bool {
    (exists|i: int| 0 <= i < a.len() && i < b.len() && #[trigger] collide(a[i], b[i]))
        || levels_collide(merkle_leaves(a), merkle_leaves(b))
}

/// Every entry of a level is 64 characters long.
pub open spec fn level_of_digests(level: Seq<Seq<char>>) -> bool {
    forall|i: int| 0 <= i < level.len() ==> (#[trigger] level[i]).len() == 64
}

/// Joined texts that are equal, and whose first parts are equally long,
/// are equal part by part.
pub proof fn lemma_joined_texts_split(a: Seq<char>, b: Seq<char>, c: Seq<char>, d: Seq<char>)
    requires
        a + b == c + d,
        a.len() == c.len(),
    ensures
        a == c,
        b == d,
{
    assert((a + b).len() == a.len() + b.len());
    assert forall|i: int| 0 <= i < a.len() implies a[i] == c[i] by {
        assert((a + b)[i] == a[i]);
    }
    assert forall|i: int| 0 <= i < b.len() implies b[i] == d[i] by {
        assert((a + b)[a.len() + i] == b[i]);
    }
}

/// Two levels of digests, equally long, that reduce to the same digest
/// are the same level, unless two pairs hashed on the way collide.
pub proof fn lemma_merkle_fold_is_injective(a: Seq<Seq<char>>, b: Seq<Seq<char>>)
    requires
        a.len() == b.len(),
        a.len() >= 1,
        level_of_digests(a),
        level_of_digests(b),
        merkle_fold(a) == merkle_fold(b),
    ensures
        a == b || levels_collide(a, b),
    decreases a.len(),
{
    if a.len() == 1 {
        assert(a =~= b);
    } else {
        let pa = merkle_padded(a);
        let pb = merkle_padded(b);
        let above_a = merkle_parents(a);
        let above_b = merkle_parents(b);
        lemma_merkle_fold_is_injective(above_a, above_b);
        if above_a == above_b && !(a =~= b) {
            let i = choose|i: int| 0 <= i < a.len() && a[i] != b[i];
            let k = i / 2;
            assert(above_a[k] == digest_of_text(joined_pair(a, k)));
            assert(above_b[k] == digest_of_text(joined_pair(b, k)));
            if joined_pair(a, k) == joined_pair(b, k) {
                lemma_joined_texts_split(pa[2 * k], pa[2 * k + 1], pb[2 * k], pb[2 * k + 1]);
                assert(pa[i] == a[i] && pb[i] == b[i]);
            }
            assert(pair_collides(a, b, k));
        }
    }
}

/// The Merkle root tells lists of the same length apart: where two lists
/// of transaction hashes, equally long, have the same root, they are the
/// same list in order and content, or else two different texts that are
/// hashed at the same place on the way to the roots share a digest.
pub proof fn merkle_root_is_injective_up_to_collisions(a: Seq<Seq<char>>, b: Seq<Seq<char>>)
    requires
        a.len() == b.len(),
        merkle_root_of(a) == merkle_root_of(b),
    ensures
        a == b || merkle_collision(a, b),
{
    if a.len() == 0 {
        assert(a =~= b);
    } else {
        let la = merkle_leaves(a);
        let lb = merkle_leaves(b);
        lemma_merkle_fold_is_injective(la, lb);
        if la == lb && !(a =~= b) {
            let i = choose|i: int| 0 <= i < a.len() && a[i] != b[i];
            assert(la[i] == digest_of_text(a[i]));
            assert(lb[i] == digest_of_text(b[i]));
            assert(collide(a[i], b[i]));
        }
    }
}

/// Changing the canonical text of a block's transactions changes the
/// text that is hashed.
pub proof fn changed_transaction_text_changes_preimage(
    block: BlockView,
    transactions: Seq<TransactionView>,
)
    requires
        transactions_text(transactions) != transactions_text(block.transactions),
    ensures
        block_preimage(BlockView { transactions, ..block }) != block_preimage(block),
{
    let changed = BlockView { transactions, ..block };
    let head = decimal_text(block.index) + utc_display_text(block.timestamp.nanos as int);
    let old_text = transactions_text(block.transactions);
    let new_text = transactions_text(transactions);
    if block_preimage(changed) == block_preimage(block) {
        crate::text::lemma_same_suffix_cancels(
            head + new_text + block.previous_hash + decimal_text(block.nonce) + block.merkle_root,
            head + old_text + block.previous_hash + decimal_text(block.nonce) + block.merkle_root,
            decimal_text(block.difficulty),
        );
        crate::text::lemma_same_suffix_cancels(
            head + new_text + block.previous_hash + decimal_text(block.nonce),
            head + old_text + block.previous_hash + decimal_text(block.nonce),
            block.merkle_root,
        );
        crate::text::lemma_same_suffix_cancels(
            head + new_text + block.previous_hash,
            head + old_text + block.previous_hash,
            decimal_text(block.nonce),
        );
        crate::text::lemma_same_suffix_cancels(
            head + new_text,
            head + old_text,
            block.previous_hash,
        );
        crate::text::lemma_same_prefix_cancels(head, new_text, old_text);
    }
}

/// A valid block whose transactions are replaced by a list with another
/// canonical text is no longer valid, or else the texts hashed for the
/// two blocks, which differ, share a digest.
pub proof fn changed_transaction_text_is_rejected(
    block: BlockView,
    transactions: Seq<TransactionView>,
    previous_hash: Seq<char>,
)
    requires
        block_valid(block, previous_hash),
        transactions_text(transactions) != transactions_text(block.transactions),
    ensures
        !block_valid(BlockView { transactions, ..block }, previous_hash) || collide(
            block_preimage(BlockView { transactions, ..block }),
            block_preimage(block),
        ),
{
    changed_transaction_text_changes_preimage(block, transactions);
}

/// A valid block whose transaction list is changed in any way (a
/// transaction added, removed, moved or edited in any field) is no longer
/// valid, or else the texts hashed for the two blocks, which differ,
/// share a digest, or else two times at the same place of the two lists
/// differ and have the same RFC 3339 text.
pub proof fn changed_transaction_list_is_rejected(
    block: BlockView,
    transactions: Seq<TransactionView>,
    previous_hash: Seq<char>,
)
    requires
        block_valid(block, previous_hash),
        transactions != block.transactions,
    ensures
        !block_valid(BlockView { transactions, ..block }, previous_hash) || collide(
            block_preimage(BlockView { transactions, ..block }),
            block_preimage(block),
        ) || times_collide(transactions, block.transactions),
{
    if transactions_text(transactions) == transactions_text(block.transactions) {
        canonical_text_tells_lists_apart(transactions, block.transactions);
    } else {
        changed_transaction_text_is_rejected(block, transactions, previous_hash);
    }
}

/// Changing a block's nonce changes the text that is hashed.
pub proof fn changed_nonce_changes_preimage(block: BlockView, nonce: nat)
    requires
        nonce != block.nonce,
    ensures
        block_preimage(BlockView { nonce, ..block }) != block_preimage(block),
{
    let changed = BlockView { nonce, ..block };
    let head = decimal_text(block.index) + utc_display_text(block.timestamp.nanos as int)
        + transactions_text(block.transactions) + block.previous_hash;
    let tail_a = block.merkle_root;
    let tail_b = decimal_text(block.difficulty);
    if block_preimage(changed) == block_preimage(block) {
        crate::text::lemma_same_suffix_cancels(
            head + decimal_text(nonce) + tail_a,
            head + decimal_text(block.nonce) + tail_a,
            tail_b,
        );
        crate::text::lemma_same_suffix_cancels(
            head + decimal_text(nonce),
            head + decimal_text(block.nonce),
            tail_a,
        );
        crate::text::lemma_same_prefix_cancels(
            head,
            decimal_text(nonce),
            decimal_text(block.nonce),
        );
        crate::text::lemma_decimal_text_is_injective(nonce, block.nonce);
    }
}

/// A valid block whose nonce is changed is no longer valid, or else the
/// texts hashed for the two blocks, which differ, share a digest.
pub proof fn changed_nonce_is_rejected(block: BlockView, previous_hash: Seq<char>, nonce: nat)
    requires
        block_valid(block, previous_hash),
        nonce != block.nonce,
    ensures
        !block_valid(BlockView { nonce, ..block }, previous_hash) || collide(
            block_preimage(BlockView { nonce, ..block }),
            block_preimage(block),
        ),
{
    changed_nonce_changes_preimage(block, nonce);
}

/// A valid block whose transactions are replaced by as many with other
/// hashes is no longer valid, or else two different texts that are hashed
/// at the same place on the way to the two Merkle roots share a digest.
pub proof fn changed_transactions_are_rejected(
    block: BlockView,
    transactions: Seq<TransactionView>,
    previous_hash: Seq<char>,
)
    requires
        block_valid(block, previous_hash),
        transactions.len() == block.transactions.len(),
        transaction_hashes(transactions) != transaction_hashes(block.transactions),
    ensures
        !block_valid(BlockView { transactions, ..block }, previous_hash) || merkle_collision(
            transaction_hashes(transactions),
            transaction_hashes(block.transactions),
        ),
{
    if block_valid(BlockView { transactions, ..block }, previous_hash) {
        merkle_root_is_injective_up_to_collisions(
            transaction_hashes(transactions),
            transaction_hashes(block.transactions),
        );
    }
}

/// In a valid chain every block after the first names the hash of the
/// block before it.
pub proof fn valid_chain_is_linked(chain: Seq<BlockView>, i: int)
    requires
        chain_valid(chain),
        0 < i < chain.len(),
    ensures
        chain[i].previous_hash == chain[i - 1].hash,
{
    assert(link_holds(chain, i));
}

/// A chain in which some block after the first does not name the hash of
/// the block before it is invalid.
pub proof fn broken_link_invalidates_chain(chain: Seq<BlockView>, i: int)
    requires
        0 < i < chain.len(),
        chain[i].previous_hash != chain[i - 1].hash,
    ensures
        !chain_valid(chain),
{
    assert(!link_holds(chain, i));
}

/// A chain that takes a block which may follow its last block stays
/// valid if it was valid, and linked if it was linked.
pub proof fn accepted_block_extends_chain(chain: Seq<BlockView>, block: BlockView)
    requires
        acceptance_failure(last_block(chain), block) is None,
    ensures
        chain_valid(chain) ==> chain_valid(chain.push(block)),
        chain_linked(chain) ==> chain_linked(chain.push(block)),
{
    let longer = chain.push(block);
    if chain_valid(chain) {
        assert forall|i: int| 0 <= i < longer.len() implies link_holds(longer, i) by {
            if i < chain.len() {
                assert(link_holds(chain, i));
            }
        }
    }
}

} // verus!
