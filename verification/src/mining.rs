//! Batch mining: the pending transactions become one block on top of the
//! latest, and are confirmed by it.

use vstd::prelude::*;
use vstd::string::*;

use crate::blockchain::{
    Blockchain, GENESIS_HASH, block_valid, first_mined, none_meets, nonce_end,
};
use crate::error::ApiError;
use crate::models::{
    Block, BlockView, Transaction, TransactionStatus, TransactionView, transaction_views,
};
use crate::time::Timestamp;

verus! {

/// The transaction waits to be mined.
pub open spec fn is_pending(t: TransactionView) -> bool {
    t.status == TransactionStatus::Pending
}

/// The pending transactions of a list, in order.
pub open spec fn pending_of(transactions: Seq<TransactionView>) -> Seq<TransactionView> {
    transactions.filter(|t: TransactionView| is_pending(t))
}

/// A transaction as the block with hash `block_hash` confirms it.
pub open spec fn confirmed_by(t: TransactionView, block_hash: Seq<char>) -> TransactionView {
    TransactionView { status: TransactionStatus::Confirmed, block_hash: Some(block_hash), ..t }
}

/// A list in which every pending transaction is confirmed by the block
/// with hash `block_hash`, and the others are as they were.
pub open spec fn confirm_pending(transactions: Seq<TransactionView>, block_hash: Seq<char>) -> Seq<
    TransactionView,
> {
    Seq::new(
        transactions.len(),
        |i: int|
            if is_pending(transactions[i]) {
                confirmed_by(transactions[i], block_hash)
            } else {
                transactions[i]
            },
    )
}

/// The index of the block to mine on: that of the latest block, or of
/// the genesis block where the chain is empty.
pub open spec fn tip_index(latest: Option<&Block>) -> nat {
    match latest {
        Some(b) => b.index as nat,
        None => 0,
    }
}

/// The hash of the block to mine on.
pub open spec fn tip_hash(latest: Option<&Block>) -> Seq<char> {
    match latest {
        Some(b) => b.hash@,
        None => GENESIS_HASH@,
    }
}

/// The difficulty that the block to mine on hands down.
pub open spec fn tip_difficulty(latest: Option<&Block>) -> nat {
    match latest {
        Some(b) => b.difficulty as nat,
        None => 1,
    }
}

/// `block` is what a search from the nonce `first` upwards finds for
/// `transactions` on top of `latest` at `timestamp`: the candidate of the
/// first nonce whose hash has the difficulty prefix, a valid successor of
/// `latest`.
pub open spec fn mined_on_from(
    block: BlockView,
    latest: Option<&Block>,
    transactions: Seq<TransactionView>,
    timestamp: Timestamp,
    first: nat,
) -> bool {
    &&& first_mined(
        block,
        tip_index(latest) + 1,
        transactions,
        tip_hash(latest),
        tip_difficulty(latest),
        timestamp,
        first,
    )
    &&& block_valid(block, tip_hash(latest))
}

/// `block` is what mining `transactions` on top of `latest` at
/// `timestamp` gives: the candidate of the least nonce whose hash has the
/// difficulty prefix.
pub open spec fn mined_on(
    block: BlockView,
    latest: Option<&Block>,
    transactions: Seq<TransactionView>,
    timestamp: Timestamp,
) -> bool {
    mined_on_from(block, latest, transactions, timestamp, 0)
}

/// None of the nonces from `first` up to, but not including, `end` gives
/// a block on top of `latest` a hash with the difficulty prefix.
pub open spec fn none_fits_between(
    latest: Option<&Block>,
    transactions: Seq<TransactionView>,
    timestamp: Timestamp,
    first: nat,
    end: nat,
) -> bool {
    none_meets(
        tip_index(latest) + 1,
        transactions,
        tip_hash(latest),
        tip_difficulty(latest),
        timestamp,
        first,
        end,
    )
}

/// No 64-bit nonce gives a block on top of `latest` a hash with the
/// difficulty prefix.
pub open spec fn no_nonce_fits(
    latest: Option<&Block>,
    transactions: Seq<TransactionView>,
    timestamp: Timestamp,
) -> bool {
    none_fits_between(latest, transactions, timestamp, 0, nonce_end())
}

/// Searches the nonces from `first_nonce` to `last_nonce`, both included,
/// for a block of `transactions` on top of `latest`, or of the genesis
/// block where there is no latest, stamped `timestamp`.  `Ok(None)` means
/// that no nonce in the range will do.
pub fn mine_on_between(
    latest: Option<&Block>,
    transactions: &[Transaction],
    timestamp: Timestamp,
    first_nonce: u64,
    last_nonce: u64,
) -> (outcome: Result<Option<Block>, ApiError>)
    ensures
        match outcome {
            Ok(Some(block)) => {
                &&& tip_index(latest) < u64::MAX
                &&& block.nonce <= last_nonce
                &&& mined_on_from(
                    block@,
                    latest,
                    transaction_views(transactions@),
                    timestamp,
                    first_nonce as nat,
                )
            },
            Ok(None) => tip_index(latest) < u64::MAX && none_fits_between(
                latest,
                transaction_views(transactions@),
                timestamp,
                first_nonce as nat,
                last_nonce as nat + 1,
            ),
            Err(e) => e == ApiError::ValueOverflow && tip_index(latest) == u64::MAX,
        },
{
    let (index, hash, difficulty) = match latest {
        Some(b) => (b.index, b.hash.clone(), b.difficulty),
        None => (0, String::from_str(GENESIS_HASH), 1),
    };
    if index == u64::MAX {
        return Err(ApiError::ValueOverflow);
    }
    Ok(
        Blockchain::mine_block_between(
            index + 1,
            transactions,
            hash.as_str(),
            difficulty,
            timestamp,
            first_nonce,
            last_nonce,
        ),
    )
}

/// Mines `transactions` into a block on top of `latest`, or of the
/// genesis block where there is no latest, stamped `timestamp`.
pub fn mine_on(latest: Option<&Block>, transactions: Vec<Transaction>, timestamp: Timestamp) -> (outcome:
    Result<Block, ApiError>)
    ensures
        match outcome {
            Ok(block) => tip_index(latest) < u64::MAX && mined_on(
                block@,
                latest,
                transaction_views(transactions@),
                timestamp,
            ),
            Err(e) => if tip_index(latest) == u64::MAX {
                e == ApiError::ValueOverflow
            } else {
                e == ApiError::NonceExhausted && no_nonce_fits(
                    latest,
                    transaction_views(transactions@),
                    timestamp,
                )
            },
        },
{
    match mine_on_between(latest, transactions.as_slice(), timestamp, 0, u64::MAX) {
        Ok(Some(block)) => Ok(block),
        Ok(None) => Err(ApiError::NonceExhausted),
        Err(e) => Err(e),
    }
}

/// Mines a block without transactions on top of `latest`, stamped with
/// the present time.
pub fn mine_block(latest: Option<&Block>) -> (outcome: Result<Block, ApiError>)
    ensures
        match outcome {
            Ok(block) => tip_index(latest) < u64::MAX && mined_on(
                block@,
                latest,
                Seq::empty(),
                block.timestamp,
            ),
            Err(e) => if tip_index(latest) == u64::MAX {
                e == ApiError::ValueOverflow
            } else {
                e == ApiError::NonceExhausted && exists|timestamp: Timestamp|
                    no_nonce_fits(latest, Seq::empty(), timestamp)
            },
        },
{
    let nothing: Vec<Transaction> = Vec::new();
    assert(transaction_views(nothing@) =~= Seq::empty());
    mine_on(latest, nothing, Timestamp::now())
}

/// The pending transactions of a list, copied in order.
pub fn pending_transactions(transactions: &Vec<Transaction>) -> (pending: Vec<Transaction>)
    ensures
        transaction_views(pending@) == pending_of(transaction_views(transactions@)),
{
    let ghost all = transaction_views(transactions@);
    let mut pending: Vec<Transaction> = Vec::new();
    let mut i: usize = 0;
    while i < transactions.len()
        invariant
            i <= transactions.len(),
            all == transaction_views(transactions@),
            transaction_views(pending@) == pending_of(all.take(i as int)),
        decreases transactions.len() - i,
    {
        proof {
            reveal(Seq::filter);
            assert(all.take(i + 1).drop_last() =~= all.take(i as int));
        }
        if matches!(transactions[i].status, TransactionStatus::Pending) {
            pending.push(transactions[i].clone());
        }
        i += 1;
    }
    assert(all.take(i as int) =~= all);
    pending
}

/// Searches the nonces from `first_nonce` to `last_nonce`, both included,
/// for a block that holds every pending transaction of `transactions` on
/// top of `latest`, stamped `timestamp`.  When a nonce is found the
/// pending transactions are confirmed: each gets the status confirmed and
/// the new block's hash, while the block holds them as they were when it
/// was mined.  With nothing pending, nothing is mined.  `Ok(None)` means
/// that no nonce in the range will do.  Only a block that is found
/// changes the list.
pub fn mine_pending_between(
    latest: Option<&Block>,
    transactions: &mut Vec<Transaction>,
    timestamp: Timestamp,
    first_nonce: u64,
    last_nonce: u64,
) -> (outcome: Result<Option<Block>, ApiError>)
    ensures
        match outcome {
            Ok(Some(block)) => {
                &&& pending_of(transaction_views(old(transactions)@)).len() > 0
                &&& tip_index(latest) < u64::MAX
                &&& block.nonce <= last_nonce
                &&& mined_on_from(
                    block@,
                    latest,
                    pending_of(transaction_views(old(transactions)@)),
                    timestamp,
                    first_nonce as nat,
                )
                &&& transaction_views(final(transactions)@) == confirm_pending(
                    transaction_views(old(transactions)@),
                    block@.hash,
                )
            },
            Ok(None) => {
                &&& pending_of(transaction_views(old(transactions)@)).len() > 0
                &&& tip_index(latest) < u64::MAX
                &&& none_fits_between(
                    latest,
                    pending_of(transaction_views(old(transactions)@)),
                    timestamp,
                    first_nonce as nat,
                    last_nonce as nat + 1,
                )
                &&& transaction_views(final(transactions)@) == transaction_views(
                    old(transactions)@,
                )
            },
            Err(e) => {
                &&& transaction_views(final(transactions)@) == transaction_views(
                    old(transactions)@,
                )
                &&& if pending_of(transaction_views(old(transactions)@)).len() == 0 {
                    e == ApiError::NoPendingWork
                } else {
                    e == ApiError::ValueOverflow && tip_index(latest) == u64::MAX
                }
            },
        },
{
    let ghost before = transaction_views(transactions@);
    let pending = pending_transactions(transactions);
    if pending.len() == 0 {
        return Err(ApiError::NoPendingWork);
    }
    let block = match mine_on_between(
        latest,
        pending.as_slice(),
        timestamp,
        first_nonce,
        last_nonce,
    ) {
        Ok(Some(b)) => b,
        Ok(None) => {
            return Ok(None);
        },
        Err(e) => {
            return Err(e);
        },
    };
    let mut i: usize = 0;
    while i < transactions.len()
        invariant
            i <= transactions.len(),
            transactions.len() == before.len(),
            forall|j: int|
                0 <= j < i ==> transaction_views(transactions@)[j] == confirm_pending(
                    before,
                    block@.hash,
                )[j],
            forall|j: int| i <= j < before.len() ==> transaction_views(transactions@)[j] == before[j],
        decreases transactions.len() - i,
    {
        let ghost so_far = transaction_views(transactions@);
        if matches!(transactions[i].status, TransactionStatus::Pending) {
            let mut tx = transactions[i].clone();
            tx.status = TransactionStatus::Confirmed;
            tx.block_hash = Some(block.hash.clone());
            transactions.set(i, tx);
            assert(transaction_views(transactions@) =~= so_far.update(i as int, tx@));
        }
        i += 1;
    }
    Ok(Some(block))
}

/// Mines every pending transaction of `transactions` into one block on
/// top of `latest`, stamped `timestamp`, and confirms them.  A failure
/// leaves the list as it was.
pub fn mine_pending_at(
    latest: Option<&Block>,
    transactions: &mut Vec<Transaction>,
    timestamp: Timestamp,
) -> (outcome: Result<Block, ApiError>)
    ensures
        match outcome {
            Ok(block) => {
                &&& pending_of(transaction_views(old(transactions)@)).len() > 0
                &&& tip_index(latest) < u64::MAX
                &&& mined_on(
                    block@,
                    latest,
                    pending_of(transaction_views(old(transactions)@)),
                    timestamp,
                )
                &&& transaction_views(final(transactions)@) == confirm_pending(
                    transaction_views(old(transactions)@),
                    block@.hash,
                )
            },
            Err(e) => {
                &&& transaction_views(final(transactions)@) == transaction_views(
                    old(transactions)@,
                )
                &&& if pending_of(transaction_views(old(transactions)@)).len() == 0 {
                    e == ApiError::NoPendingWork
                } else if tip_index(latest) == u64::MAX {
                    e == ApiError::ValueOverflow
                } else {
                    e == ApiError::NonceExhausted && no_nonce_fits(
                        latest,
                        pending_of(transaction_views(old(transactions)@)),
                        timestamp,
                    )
                }
            },
        },
{
    match mine_pending_between(latest, transactions, timestamp, 0, u64::MAX) {
        Ok(Some(block)) => Ok(block),
        Ok(None) => Err(ApiError::NonceExhausted),
        Err(e) => Err(e),
    }
}

/// Mines the pending transactions on top of `latest`, stamped with the
/// present time.  Fails with `NoPendingWork` exactly when nothing is
/// pending.
pub fn mine_pending_transactions(latest: Option<&Block>, transactions: &mut Vec<Transaction>) -> (outcome:
    Result<Block, ApiError>)
    ensures
        match outcome {
            Ok(block) => {
                &&& pending_of(transaction_views(old(transactions)@)).len() > 0
                &&& tip_index(latest) < u64::MAX
                &&& mined_on(
                    block@,
                    latest,
                    pending_of(transaction_views(old(transactions)@)),
                    block.timestamp,
                )
                &&& transaction_views(final(transactions)@) == confirm_pending(
                    transaction_views(old(transactions)@),
                    block@.hash,
                )
            },
            Err(e) => {
                &&& transaction_views(final(transactions)@) == transaction_views(
                    old(transactions)@,
                )
                &&& if pending_of(transaction_views(old(transactions)@)).len() == 0 {
                    e == ApiError::NoPendingWork
                } else if tip_index(latest) == u64::MAX {
                    e == ApiError::ValueOverflow
                } else {
                    e == ApiError::NonceExhausted && exists|timestamp: Timestamp|
                        no_nonce_fits(
                            latest,
                            pending_of(transaction_views(old(transactions)@)),
                            timestamp,
                        )
                }
            },
        },
{
    mine_pending_at(latest, transactions, Timestamp::now())
}

} // verus!
