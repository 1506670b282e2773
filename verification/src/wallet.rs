//! What a wallet holds and what it did: its balance, the unspent outputs
//! behind it, and the transactions it sent and received.

use vstd::prelude::*;
use vstd::string::*;

use crate::error::ApiError;
use crate::ledger::{UtxoLedger, balance_in, unspent_of};
use crate::models::{
    BalanceResponse, Transaction, TransactionStatus, TransactionView, User, UtxoResponse,
    UtxoStatus, UtxoView, transaction_views,
};
use crate::text::same_text;
use crate::time::Timestamp;
use crate::transactions::{find_user_by_wallet_id, owner_of, wallet_ids};

verus! {

/// The view of a reported output.
pub struct UtxoResponseView {
    pub id: Seq<char>,
    pub amount: nat,
    pub status: UtxoStatus,
    pub block_hash: Seq<char>,
}

impl View for UtxoResponse {
    type V = UtxoResponseView;

    open spec fn view(&self) -> UtxoResponseView {
        UtxoResponseView {
            id: self.id@,
            amount: self.amount as nat,
            status: self.status,
            block_hash: self.block_hash@,
        }
    }
}

/// What a balance report says of an output.
pub open spec fn reported(u: UtxoView) -> UtxoResponseView {
    UtxoResponseView { id: u.utxo_id, amount: u.amount, status: u.status, block_hash: u.block_hash }
}

/// The views of a list of reported outputs.
pub open spec fn response_views(responses: Seq<UtxoResponse>) -> Seq<UtxoResponseView> {
    responses.map_values(|r: UtxoResponse| r@)
}

/// Reports the balance of `wallet_id`, the unspent outputs that make it
/// up, in the order of arrival, and the levy total of the account that
/// owns the wallet.  Fails with `UnknownWallet` exactly when no account
/// owns it.
pub fn get_balance(ledger: &UtxoLedger, users: &Vec<User>, wallet_id: &str) -> (outcome: Result<
    BalanceResponse,
    ApiError,
>)
    ensures
        outcome is Ok <==> wallet_ids(users@).contains(wallet_id@),
        match outcome {
            Ok(report) => {
                &&& report.balance == balance_in(ledger@, wallet_id@)
                &&& response_views(report.utxos@) == unspent_of(ledger@, wallet_id@).map_values(
                    |u: UtxoView| reported(u),
                )
                &&& report.zakat_deduction == users[owner_of(
                    users@,
                    wallet_id@,
                )].zakat_deduction
            },
            Err(e) => e == ApiError::UnknownWallet,
        },
{
    let unspent = ledger.unspent_for(wallet_id);
    let balance = ledger.balance_of(wallet_id);
    let owner = match find_user_by_wallet_id(users, wallet_id) {
        Some(i) => i,
        None => {
            return Err(ApiError::UnknownWallet);
        },
    };
    let mut utxos: Vec<UtxoResponse> = Vec::new();
    let mut i: usize = 0;
    while i < unspent.len()
        invariant
            i <= unspent.len(),
            utxos.len() == i,
            forall|j: int| 0 <= j < i ==> utxos[j]@ == reported(unspent[j]@),
        decreases unspent.len() - i,
    {
        let u = &unspent[i];
        utxos.push(
            UtxoResponse {
                id: u.utxo_id.clone(),
                amount: u.amount,
                status: u.status,
                block_hash: u.block_hash.clone(),
            },
        );
        i += 1;
    }
    Ok(BalanceResponse { balance, utxos, zakat_deduction: users[owner].zakat_deduction })
}

/// Which way a transaction moved value, seen from one wallet.
#[derive(Clone, Copy, Debug, PartialEq, Eq, Structural)]
pub enum Direction {
    Sent,
    Received,
}

/// One line of a wallet's history.
#[derive(Debug, PartialEq, Eq)]
pub struct HistoryEntry {
    pub direction: Direction,
    pub amount: u64,
    pub counterparty: String,
    pub timestamp: Timestamp,
    pub status: TransactionStatus,
    pub block_hash: String,
}

/// The view of a [`HistoryEntry`].
pub struct HistoryEntryView {
    pub direction: Direction,
    pub amount: nat,
    pub counterparty: Seq<char>,
    pub timestamp: Timestamp,
    pub status: TransactionStatus,
    pub block_hash: Seq<char>,
}

impl View for HistoryEntry {
    type V = HistoryEntryView;

    open spec fn view(&self) -> HistoryEntryView {
        HistoryEntryView {
            direction: self.direction,
            amount: self.amount as nat,
            counterparty: self.counterparty@,
            timestamp: self.timestamp,
            status: self.status,
            block_hash: self.block_hash@,
        }
    }
}

/// The views of a list of history entries.
pub open spec fn history_views(entries: Seq<HistoryEntry>) -> Seq<HistoryEntryView> {
    entries.map_values(|e: HistoryEntry| e@)
}

/// The wallet sent or received the transaction.
pub open spec fn involves(t: TransactionView, wallet: Seq<char>) -> bool {
    t.sender_wallet_id == wallet || t.recipient_wallet_id == wallet
}

/// A transaction as the history of `wallet` shows it: sent where the
/// wallet is the sender, received otherwise, with the other party and
/// the hash of the confirming block, empty while there is none.
pub open spec fn history_entry(t: TransactionView, wallet: Seq<char>) -> HistoryEntryView {
    HistoryEntryView {
        direction: if t.sender_wallet_id == wallet {
            Direction::Sent
        } else {
            Direction::Received
        },
        amount: t.amount,
        counterparty: if t.sender_wallet_id == wallet {
            t.recipient_wallet_id
        } else {
            t.sender_wallet_id
        },
        timestamp: t.timestamp,
        status: t.status,
        block_hash: match t.block_hash {
            Some(hash) => hash,
            None => Seq::empty(),
        },
    }
}

/// The history of `wallet`: the transactions that involve it, in order.
pub open spec fn history_of(transactions: Seq<TransactionView>, wallet: Seq<char>) -> Seq<
    HistoryEntryView,
> {
    transactions.filter(|t: TransactionView| involves(t, wallet)).map_values(
        |t: TransactionView| history_entry(t, wallet),
    )
}

/// Lists what `wallet_id` sent and received, in the order of the
/// transactions given.
pub fn get_history(transactions: &[Transaction], wallet_id: &str) -> (history: Vec<HistoryEntry>)
    ensures
        history_views(history@) == history_of(transaction_views(transactions@), wallet_id@),
{
    let ghost all = transaction_views(transactions@);
    let mut history: Vec<HistoryEntry> = Vec::new();
    let mut i: usize = 0;
    while i < transactions.len()
        invariant
            i <= transactions.len(),
            all == transaction_views(transactions@),
            history_views(history@) == history_of(all.take(i as int), wallet_id@),
        decreases transactions.len() - i,
    {
        let ghost before = history_views(history@);
        proof {
            reveal(Seq::filter);
            assert(all.take(i + 1).drop_last() =~= all.take(i as int));
        }
        let tx = &transactions[i];
        let sent = same_text(tx.sender_wallet_id.as_str(), wallet_id);
        if sent || same_text(tx.recipient_wallet_id.as_str(), wallet_id) {
            let entry = HistoryEntry {
                direction: if sent {
                    Direction::Sent
                } else {
                    Direction::Received
                },
                amount: tx.amount,
                counterparty: if sent {
                    tx.recipient_wallet_id.clone()
                } else {
                    tx.sender_wallet_id.clone()
                },
                timestamp: tx.timestamp,
                status: tx.status,
                block_hash: match &tx.block_hash {
                    Some(hash) => hash.clone(),
                    None => String::new(),
                },
            };
            history.push(entry);
            assert(history_views(history@) =~= before.push(history_entry(all[i as int], wallet_id@)));
        }
        i += 1;
    }
    assert(all.take(i as int) =~= all);
    history
}

} // verus!
