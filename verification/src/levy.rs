//! The levy: a fixed share of a balance above a threshold, deducted from
//! the wallet and credited to a pool account by a transaction of its own.

use vstd::prelude::*;
use vstd::string::*;

use crate::crypto::{digest_of_text, hash_text, sign_transaction, signature_of};
use crate::error::ApiError;
use crate::ledger::{
    UtxoLedger, balance_in, identifiers, ids_collide, ids_of, lemma_selection_is_spendable, moved,
    selection_count, settle_refusal, settled, settlement_conserves_value, sum_amounts,
    total_unspent, unspent_of, utxo_views, well_formed,
};
use crate::models::{Transaction, TransactionStatus, TransactionView, UTXO, User, UtxoView};
use crate::text::{joined, signed_decimal, signed_decimal_text};
use crate::time::Timestamp;

verus! {

/// Balances up to this amount owe no levy.
pub const LEVY_THRESHOLD: u64 = 100;

/// The levy's rate, in thousandths of the balance: 2.5 per cent.
pub const LEVY_PER_MILLE: u64 = 25;

/// The wallet that collects the levy.
pub const LEVY_POOL: &'static str = "ZAKAT_POOL";

/// The block hash that levy records carry: they are not mined.
pub const LEVY_BLOCK: &'static str = "zakat_block";

/// The note on a levy transaction.
pub const LEVY_NOTE: &'static str = "Monthly Zakat Deduction (2.5%)";

/// What stands before the wallet in the texts that a levy hashes and signs.
pub const LEVY_TAG: &'static str = "zakat_";

/// The levy that a balance owes: 25 thousandths of it, rounded down, when
/// it exceeds the threshold, and nothing otherwise.
pub open spec fn levy_due(balance: nat) -> nat {
    if balance > LEVY_THRESHOLD {
        balance * LEVY_PER_MILLE as nat / 1000
    } else {
        0
    }
}

/// The transaction that records a levy of `due` on a wallet: it is paid
/// for by `inputs`, its output goes to the pool, `change` goes back to
/// the wallet, and it is confirmed at once, in no mined block.
pub open spec fn levy_of(
    user: User,
    due: nat,
    inputs: Seq<Seq<char>>,
    change: nat,
    timestamp: Timestamp,
    output_id: Seq<char>,
    change_id: Seq<char>,
) -> TransactionView {
    TransactionView {
        transaction_hash: digest_of_text(
            LEVY_TAG@ + user.wallet_id@ + signed_decimal_text(timestamp.whole_seconds()),
        ),
        sender_wallet_id: user.wallet_id@,
        recipient_wallet_id: LEVY_POOL@,
        amount: due,
        note: Some(LEVY_NOTE@),
        timestamp,
        sender_public_key: user.public_key@,
        digital_signature: signature_of(LEVY_TAG@ + user.wallet_id@, user.private_key_encrypted@),
        input_utxos: inputs,
        output_utxo: output_id,
        change_utxo: if change > 0 {
            Some(change_id)
        } else {
            None
        },
        status: TransactionStatus::Confirmed,
        block_hash: Some(LEVY_BLOCK@),
    }
}

/// The levy transaction that a ledger gives rise to for `user`: the levy
/// that the wallet's balance owes, paid for by the first-fit selection
/// from the wallet's unspent outputs.
pub open spec fn planned_levy(
    utxos: Seq<UtxoView>,
    user: User,
    timestamp: Timestamp,
    output_id: Seq<char>,
    change_id: Seq<char>,
) -> TransactionView {
    let due = levy_due(balance_in(utxos, user.wallet_id@));
    let unspent = unspent_of(utxos, user.wallet_id@);
    let chosen = unspent.take(selection_count(unspent, due) as int);
    levy_of(
        user,
        due,
        ids_of(chosen),
        (sum_amounts(chosen) - due) as nat,
        timestamp,
        output_id,
        change_id,
    )
}

/// The levy that `balance` owes.
pub fn calculate_zakat(balance: u64) -> (due: u64)
    ensures
        due == levy_due(balance as nat),
        due <= balance,
{
    if balance > LEVY_THRESHOLD {
        assert(balance * LEVY_PER_MILLE == balance * 25) by (nonlinear_arith)
            requires
                LEVY_PER_MILLE == 25,
        ;
        let share: u128 = (balance as u128) * (LEVY_PER_MILLE as u128) / 1000;
        share as u64
    } else {
        0
    }
}

/// Builds the levy transaction of `due` on `user`, paid for by `inputs`
/// with `change` left over.
pub fn build_levy(
    user: &User,
    due: u64,
    inputs: &Vec<UTXO>,
    change: u64,
    timestamp: Timestamp,
    output_id: String,
    change_id: String,
) -> (tx: Transaction)
    ensures
        tx@ == levy_of(
            *user,
            due as nat,
            ids_of(utxo_views(inputs@)),
            change as nat,
            timestamp,
            output_id@,
            change_id@,
        ),
{
    let tagged = joined(LEVY_TAG, user.wallet_id.as_str());
    let mut stamped = joined(LEVY_TAG, user.wallet_id.as_str());
    stamped.append(signed_decimal(timestamp.seconds()).as_str());
    Transaction {
        transaction_hash: hash_text(stamped.as_str()),
        sender_wallet_id: user.wallet_id.clone(),
        recipient_wallet_id: String::from_str(LEVY_POOL),
        amount: due,
        note: Some(String::from_str(LEVY_NOTE)),
        timestamp,
        sender_public_key: user.public_key.clone(),
        digital_signature: sign_transaction(tagged.as_str(), user.private_key_encrypted.as_str()),
        input_utxos: identifiers(inputs),
        output_utxo: output_id,
        change_utxo: if change > 0 {
            Some(change_id)
        } else {
            None
        },
        status: TransactionStatus::Confirmed,
        block_hash: Some(String::from_str(LEVY_BLOCK)),
    }
}

/// Levies `user`'s wallet at `timestamp`.  Where the balance owes a levy,
/// the levy is deducted: inputs are selected first-fit from the wallet's
/// unspent outputs, and the levy transaction is settled at once, its
/// output, named `output_id`, going to the pool and the change, named
/// `change_id`, back to the wallet.  The transaction is returned.  It
/// fails only where a given identifier is in use, and then leaves the
/// ledger as it was.  Where the balance owes no levy, nothing happens.
pub fn apply_levy(
    ledger: &mut UtxoLedger,
    user: &User,
    timestamp: Timestamp,
    output_id: String,
    change_id: String,
) -> (outcome: Result<Option<Transaction>, ApiError>)
    ensures
        match outcome {
            Ok(None) => {
                &&& levy_due(balance_in(old(ledger)@, user.wallet_id@)) == 0
                &&& final(ledger)@ == old(ledger)@
            },
            Ok(Some(tx)) => {
                &&& tx@.amount == levy_due(balance_in(old(ledger)@, user.wallet_id@))
                &&& tx@.amount > 0
                &&& tx@ == planned_levy(old(ledger)@, *user, timestamp, output_id@, change_id@)
                &&& settle_refusal(old(ledger)@, tx@) is None
                &&& final(ledger)@ == settled(old(ledger)@, tx@)
                &&& moved(old(ledger)@, final(ledger)@, user.wallet_id@, LEVY_POOL@, tx@.amount)
                &&& total_unspent(final(ledger)@) == total_unspent(old(ledger)@)
                &&& user.wallet_id@ != LEVY_POOL@ ==> {
                    &&& balance_in(final(ledger)@, user.wallet_id@) == balance_in(
                        old(ledger)@,
                        user.wallet_id@,
                    ) - tx@.amount
                    &&& balance_in(final(ledger)@, LEVY_POOL@) == balance_in(
                        old(ledger)@,
                        LEVY_POOL@,
                    ) + tx@.amount
                }
            },
            Err(e) => {
                &&& levy_due(balance_in(old(ledger)@, user.wallet_id@)) > 0
                &&& final(ledger)@ == old(ledger)@
                &&& e == ApiError::DuplicateUtxo
                &&& ids_collide(
                    old(ledger)@,
                    planned_levy(old(ledger)@, *user, timestamp, output_id@, change_id@),
                )
            },
        },
{
    let balance = ledger.balance_of(user.wallet_id.as_str());
    let due = calculate_zakat(balance);
    if due == 0 {
        return Ok(None);
    }
    let (inputs, total) = match ledger.select_inputs(user.wallet_id.as_str(), due) {
        Ok(chosen) => chosen,
        Err(e) => {
            return Err(e);
        },
    };
    proof {
        lemma_selection_is_spendable(ledger@, user.wallet_id@, inputs@.len() as int);
    }
    let tx = build_levy(user, due, &inputs, total - due, timestamp, output_id, change_id);
    match ledger.settle(&tx) {
        Ok(()) => Ok(Some(tx)),
        Err(e) => Err(e),
    }
}

/// The levy is a deduction: where the levy transaction that a ledger
/// gives rise to can be settled, settling it keeps the ledger's unspent
/// value, and takes the levy from the wallet's balance and adds it to the
/// pool's, for a wallet that is not the pool itself.
pub proof fn levy_is_deducted(
    utxos: Seq<UtxoView>,
    user: User,
    timestamp: Timestamp,
    output_id: Seq<char>,
    change_id: Seq<char>,
)
    requires
        well_formed(utxos),
        settle_refusal(utxos, planned_levy(utxos, user, timestamp, output_id, change_id)) is None,
    ensures
        ({
            let levy = planned_levy(utxos, user, timestamp, output_id, change_id);
            let due = levy_due(balance_in(utxos, user.wallet_id@));
            &&& moved(utxos, settled(utxos, levy), user.wallet_id@, LEVY_POOL@, due)
            &&& total_unspent(settled(utxos, levy)) == total_unspent(utxos)
            &&& user.wallet_id@ != LEVY_POOL@ ==> {
                &&& balance_in(settled(utxos, levy), user.wallet_id@) == balance_in(
                    utxos,
                    user.wallet_id@,
                ) - due
                &&& balance_in(settled(utxos, levy), LEVY_POOL@) == balance_in(utxos, LEVY_POOL@)
                    + due
            }
        }),
{
    settlement_conserves_value(utxos, planned_levy(utxos, user, timestamp, output_id, change_id));
}

/// Adds a levy of `amount` to the running total that `user` carries.  A
/// total that would pass 64 bits is left as it was.
pub fn record_levy(user: &mut User, amount: u64) -> (outcome: Result<(), ApiError>)
    ensures
        outcome is Ok <==> old(user).zakat_deduction + amount <= u64::MAX,
        outcome matches Err(e) ==> e == ApiError::ValueOverflow && *final(user) == *old(user),
        outcome is Ok ==> *final(user) == (User {
            zakat_deduction: (old(user).zakat_deduction + amount) as u64,
            ..*old(user)
        }),
{
    match user.zakat_deduction.checked_add(amount) {
        Some(total) => {
            user.zakat_deduction = total;
            Ok(())
        },
        None => Err(ApiError::ValueOverflow),
    }
}

} // verus!
