//! The transaction engine: it turns a request to move value into a signed
//! transaction, settles it in the ledger and levies the sender.

use vstd::prelude::*;
use vstd::string::*;

use crate::crypto::{
    digest_of_text, hash_text, payload_text, sign_transaction, signature_of, signature_payload,
    validate_transaction_signature,
};
use crate::error::ApiError;
use crate::ledger::{
    UtxoLedger, balance_in, identifiers, ids_collide, ids_of, lemma_selection_is_spendable, moved,
    selection_count,
    settle_refusal, settled, sum_amounts, unspent_of, utxo_views,
};
use crate::levy::{LEVY_POOL, apply_levy, levy_due, planned_levy};
use crate::models::{
    SendMoneyRequest, Transaction, TransactionResponse, TransactionStatus, TransactionView, UTXO,
    User, UtxoView, clone_optional, optional_text,
};
use crate::text::same_text;
use crate::time::Timestamp;

verus! {

/// The wallets of a list of accounts, in order.
pub open spec fn wallet_ids(users: Seq<User>) -> Seq<Seq<char>> {
    users.map_values(|u: User| u.wallet_id@)
}

/// The account at `i` owns `wallet`, and none before it does.
pub open spec fn is_first_owner(users: Seq<User>, wallet: Seq<char>, i: int) -> bool {
    &&& 0 <= i < users.len()
    &&& users[i].wallet_id@ == wallet
    &&& forall|j: int| 0 <= j < i ==> wallet_ids(users)[j] != wallet
}

/// The place of the first account that owns `wallet`.
pub open spec fn owner_of(users: Seq<User>, wallet: Seq<char>) -> int {
    choose|i: int| is_first_owner(users, wallet, i)
}

/// Why a request to move `amount` is turned down before anything is
/// built: the first of these that applies.  The amount is zero; the
/// sender or the recipient is no known wallet; the sender's balance does
/// not cover the amount.
pub open spec fn transfer_refusal(
    utxos: Seq<UtxoView>,
    wallets: Seq<Seq<char>>,
    sender: Seq<char>,
    recipient: Seq<char>,
    amount: nat,
) -> Option<ApiError> {
    if amount == 0 {
        Some(ApiError::InvalidAmount)
    } else if !wallets.contains(sender) || !wallets.contains(recipient) {
        Some(ApiError::UnknownWallet)
    } else if balance_in(utxos, sender) < amount {
        Some(ApiError::InsufficientBalance)
    } else {
        None
    }
}

/// The pending transaction that moves `amount` from `sender` to
/// `recipient`, paid for by `inputs`, with `change` going back to the
/// sender.  Its hash is the digest of the signature payload; its
/// signature is the payload's under the sender's private key; it names a
/// change output exactly when change is due.
pub open spec fn transfer_of(
    sender: User,
    recipient: Seq<char>,
    amount: nat,
    note: Option<Seq<char>>,
    inputs: Seq<Seq<char>>,
    change: nat,
    timestamp: Timestamp,
    output_id: Seq<char>,
    change_id: Seq<char>,
) -> TransactionView {
    let payload = signature_payload(sender.wallet_id@, recipient, amount, timestamp.whole_seconds());
    TransactionView {
        transaction_hash: digest_of_text(payload),
        sender_wallet_id: sender.wallet_id@,
        recipient_wallet_id: recipient,
        amount,
        note,
        timestamp,
        sender_public_key: sender.public_key@,
        digital_signature: signature_of(payload, sender.private_key_encrypted@),
        input_utxos: inputs,
        output_utxo: output_id,
        change_utxo: if change > 0 {
            Some(change_id)
        } else {
            None
        },
        status: TransactionStatus::Pending,
        block_hash: None,
    }
}

/// The transaction that a request gives rise to in a ledger: the
/// transfer paid for by the first-fit selection from the sender's
/// unspent outputs.
pub open spec fn planned_transfer(
    utxos: Seq<UtxoView>,
    sender: User,
    recipient: Seq<char>,
    amount: nat,
    note: Option<Seq<char>>,
    timestamp: Timestamp,
    output_id: Seq<char>,
    change_id: Seq<char>,
) -> TransactionView {
    let unspent = unspent_of(utxos, sender.wallet_id@);
    let chosen = unspent.take(selection_count(unspent, amount) as int);
    transfer_of(
        sender,
        recipient,
        amount,
        note,
        ids_of(chosen),
        (sum_amounts(chosen) - amount) as nat,
        timestamp,
        output_id,
        change_id,
    )
}

/// What a levy on `user` in a ledger comes to.  Where the balance owes
/// none, there is no levy.  Where it owes one, either the levy
/// transaction that the ledger gives rise to comes back, settled, or the
/// levy fails because an identifier is in use.
pub open spec fn levy_outcome(
    utxos: Seq<UtxoView>,
    user: User,
    outcome: Result<Option<Transaction>, ApiError>,
) -> bool {
    let due = levy_due(balance_in(utxos, user.wallet_id@));
    match outcome {
        Ok(None) => due == 0,
        Ok(Some(levy)) => {
            &&& due > 0
            &&& settle_refusal(utxos, levy@) is None
            &&& exists|change_id: Seq<char>|
                levy@ == #[trigger] planned_levy(
                    utxos,
                    user,
                    levy.timestamp,
                    levy@.output_utxo,
                    change_id,
                )
        },
        Err(e) => due > 0 && e == ApiError::DuplicateUtxo,
    }
}

/// What a levy with the given outcome took from the wallet.
pub open spec fn levied(outcome: Result<Option<Transaction>, ApiError>) -> nat {
    match outcome {
        Ok(Some(levy)) => levy@.amount,
        _ => 0,
    }
}

/// The ledger after a levy with the given outcome: settled where a levy
/// transaction came back, as it was otherwise.
pub open spec fn after_levy(
    utxos: Seq<UtxoView>,
    outcome: Result<Option<Transaction>, ApiError>,
) -> Seq<UtxoView> {
    match outcome {
        Ok(Some(levy)) => settled(utxos, levy@),
        _ => utxos,
    }
}

/// What a transfer and the levy that follows it came to.
#[derive(Debug, PartialEq, Eq)]
pub struct TransferReceipt {
    /// The transaction, settled in the ledger.
    pub transaction: Transaction,
    /// The levy on the sender after the transfer: the levy transaction if
    /// one was due, or why it could not be settled.
    pub levy: Result<Option<Transaction>, ApiError>,
}

/// Calls `uuid::Uuid::new_v4` and the `Display` impl of `Uuid`.
/// Trusted: nothing is claimed of the identifier, which is random.
#[verifier::external_body]
fn fresh_id() -> String {
    uuid::Uuid::new_v4().to_string()
}

/// The place of the first account that owns `wallet_id`, if any does.
pub fn find_user_by_wallet_id(users: &Vec<User>, wallet_id: &str) -> (found: Option<usize>)
    ensures
        match found {
            Some(i) => {
                &&& wallet_ids(users@).contains(wallet_id@)
                &&& i == owner_of(users@, wallet_id@)
                &&& i < users.len()
                &&& users[i as int].wallet_id@ == wallet_id@
            },
            None => !wallet_ids(users@).contains(wallet_id@),
        },
{
    let ghost wallets = wallet_ids(users@);
    let mut i: usize = 0;
    while i < users.len()
        invariant
            i <= users.len(),
            wallets == wallet_ids(users@),
            forall|j: int| 0 <= j < i ==> wallets[j] != wallet_id@,
        decreases users.len() - i,
    {
        if same_text(users[i].wallet_id.as_str(), wallet_id) {
            proof {
                assert(wallets[i as int] == wallet_id@);
                assert(is_first_owner(users@, wallet_id@, i as int));
                let first = owner_of(users@, wallet_id@);
                if first < i {
                    assert(wallets[first] != wallet_id@);
                }
            }
            return Some(i);
        }
        i += 1;
    }
    None
}

/// Builds the pending transaction that moves `amount` from `sender` to
/// `recipient_wallet_id`, paid for by `inputs` with `change` left over.
pub fn build_transfer(
    sender: &User,
    recipient_wallet_id: &str,
    amount: u64,
    note: &Option<String>,
    inputs: &Vec<UTXO>,
    change: u64,
    timestamp: Timestamp,
    output_id: String,
    change_id: String,
) -> (tx: Transaction)
    ensures
        tx@ == transfer_of(
            *sender,
            recipient_wallet_id@,
            amount as nat,
            optional_text(*note),
            ids_of(utxo_views(inputs@)),
            change as nat,
            timestamp,
            output_id@,
            change_id@,
        ),
{
    let payload = payload_text(
        sender.wallet_id.as_str(),
        recipient_wallet_id,
        amount,
        timestamp.seconds(),
    );
    Transaction {
        transaction_hash: hash_text(payload.as_str()),
        sender_wallet_id: sender.wallet_id.clone(),
        recipient_wallet_id: String::from_str(recipient_wallet_id),
        amount,
        note: clone_optional(note),
        timestamp,
        sender_public_key: sender.public_key.clone(),
        digital_signature: sign_transaction(
            payload.as_str(),
            sender.private_key_encrypted.as_str(),
        ),
        input_utxos: identifiers(inputs),
        output_utxo: output_id,
        change_utxo: if change > 0 {
            Some(change_id)
        } else {
            None
        },
        status: TransactionStatus::Pending,
        block_hash: None,
    }
}

/// Carries out a request at a given time and with given identifiers for
/// the outputs to be made.  A request that passes the checks is paid for
/// by first-fit selection, built into a pending transaction and settled
/// in the ledger; it fails only where a given identifier is in use.  A
/// request that fails leaves the ledger as it was.
pub fn transfer_at(
    ledger: &mut UtxoLedger,
    users: &Vec<User>,
    req: &SendMoneyRequest,
    timestamp: Timestamp,
    output_id: String,
    change_id: String,
) -> (outcome: Result<Transaction, ApiError>)
    ensures
        match outcome {
            Ok(tx) => {
                &&& transfer_refusal(
                    old(ledger)@,
                    wallet_ids(users@),
                    req.sender_wallet_id@,
                    req.recipient_wallet_id@,
                    req.amount as nat,
                ) is None
                &&& tx@ == planned_transfer(
                    old(ledger)@,
                    users[owner_of(users@, req.sender_wallet_id@)],
                    req.recipient_wallet_id@,
                    req.amount as nat,
                    optional_text(req.note),
                    timestamp,
                    output_id@,
                    change_id@,
                )
                &&& !ids_collide(old(ledger)@, tx@)
                &&& settle_refusal(old(ledger)@, tx@) is None
                &&& final(ledger)@ == settled(old(ledger)@, tx@)
                &&& moved(
                    old(ledger)@,
                    final(ledger)@,
                    req.sender_wallet_id@,
                    req.recipient_wallet_id@,
                    req.amount as nat,
                )
            },
            Err(e) => {
                &&& final(ledger)@ == old(ledger)@
                &&& match transfer_refusal(
                    old(ledger)@,
                    wallet_ids(users@),
                    req.sender_wallet_id@,
                    req.recipient_wallet_id@,
                    req.amount as nat,
                ) {
                    Some(reason) => e == reason,
                    None => e == ApiError::DuplicateUtxo && ids_collide(
                        old(ledger)@,
                        planned_transfer(
                            old(ledger)@,
                            users[owner_of(users@, req.sender_wallet_id@)],
                            req.recipient_wallet_id@,
                            req.amount as nat,
                            optional_text(req.note),
                            timestamp,
                            output_id@,
                            change_id@,
                        ),
                    ),
                }
            },
        },
{
    if req.amount == 0 {
        return Err(ApiError::InvalidAmount);
    }
    let sender_at = match find_user_by_wallet_id(users, req.sender_wallet_id.as_str()) {
        Some(i) => i,
        None => {
            return Err(ApiError::UnknownWallet);
        },
    };
    if find_user_by_wallet_id(users, req.recipient_wallet_id.as_str()).is_none() {
        return Err(ApiError::UnknownWallet);
    }
    let sender = &users[sender_at];
    let (inputs, total) = match ledger.select_inputs(sender.wallet_id.as_str(), req.amount) {
        Ok(chosen) => chosen,
        Err(e) => {
            return Err(e);
        },
    };
    proof {
        lemma_selection_is_spendable(ledger@, sender.wallet_id@, inputs@.len() as int);
    }
    let tx = build_transfer(
        sender,
        req.recipient_wallet_id.as_str(),
        req.amount,
        &req.note,
        &inputs,
        total - req.amount,
        timestamp,
        output_id,
        change_id,
    );
    match ledger.settle(&tx) {
        Ok(()) => Ok(tx),
        Err(e) => Err(e),
    }
}

/// Moves value as `req` asks: checks the request, selects the sender's
/// inputs, builds and signs the transaction at the present time, settles
/// it under fresh identifiers, and then levies the sender.  A request
/// that is turned down leaves the ledger as it was.
pub fn send_money(ledger: &mut UtxoLedger, users: &Vec<User>, req: &SendMoneyRequest) -> (outcome:
    Result<TransferReceipt, ApiError>)
    ensures
        match outcome {
            Ok(receipt) => {
                let tx = receipt.transaction@;
                &&& transfer_refusal(
                    old(ledger)@,
                    wallet_ids(users@),
                    req.sender_wallet_id@,
                    req.recipient_wallet_id@,
                    req.amount as nat,
                ) is None
                &&& exists|change_id: Seq<char>|
                    tx == #[trigger] planned_transfer(
                        old(ledger)@,
                        users[owner_of(users@, req.sender_wallet_id@)],
                        req.recipient_wallet_id@,
                        req.amount as nat,
                        optional_text(req.note),
                        tx.timestamp,
                        tx.output_utxo,
                        change_id,
                    )
                &&& settle_refusal(old(ledger)@, tx) is None
                &&& final(ledger)@ == after_levy(settled(old(ledger)@, tx), receipt.levy)
                &&& moved(
                    old(ledger)@,
                    settled(old(ledger)@, tx),
                    req.sender_wallet_id@,
                    req.recipient_wallet_id@,
                    req.amount as nat,
                )
                &&& moved(
                    settled(old(ledger)@, tx),
                    final(ledger)@,
                    req.sender_wallet_id@,
                    LEVY_POOL@,
                    levied(receipt.levy),
                )
                &&& levy_outcome(
                    settled(old(ledger)@, tx),
                    users[owner_of(users@, req.sender_wallet_id@)],
                    receipt.levy,
                )
            },
            Err(e) => {
                &&& final(ledger)@ == old(ledger)@
                &&& match transfer_refusal(
                    old(ledger)@,
                    wallet_ids(users@),
                    req.sender_wallet_id@,
                    req.recipient_wallet_id@,
                    req.amount as nat,
                ) {
                    Some(reason) => e == reason,
                    None => e == ApiError::DuplicateUtxo,
                }
            },
        },
{
    let timestamp = Timestamp::now();
    let output_id = fresh_id();
    let change_id = fresh_id();
    let transaction = match transfer_at(ledger, users, req, timestamp, output_id, change_id) {
        Ok(tx) => tx,
        Err(e) => {
            return Err(e);
        },
    };
    let sender_at = find_user_by_wallet_id(users, req.sender_wallet_id.as_str());
    let levy = match sender_at {
        Some(i) => apply_levy(ledger, &users[i], Timestamp::now(), fresh_id(), fresh_id()),
        None => Ok(None),
    };
    Ok(TransferReceipt { transaction, levy })
}

/// Checks a transaction's signature against its own payload and the
/// sender's public key.
pub fn verify_transaction(tx: &Transaction) -> (outcome: Result<(), ApiError>)
    ensures
        outcome is Ok <==> tx@.digital_signature == signature_of(
            signature_payload(
                tx@.sender_wallet_id,
                tx@.recipient_wallet_id,
                tx@.amount,
                tx.timestamp.whole_seconds(),
            ),
            tx@.sender_public_key,
        ),
        outcome matches Err(e) ==> e == ApiError::SignatureMismatch,
{
    if validate_transaction_signature(
        tx.sender_wallet_id.as_str(),
        tx.recipient_wallet_id.as_str(),
        tx.amount,
        tx.timestamp.seconds(),
        tx.digital_signature.as_str(),
        tx.sender_public_key.as_str(),
    ) {
        Ok(())
    } else {
        Err(ApiError::SignatureMismatch)
    }
}

/// Levies the wallet `wallet_id` at the present time, under a fresh
/// identifier for the pool's output.
pub fn process_zakat_deduction(ledger: &mut UtxoLedger, users: &Vec<User>, wallet_id: &str) -> (outcome:
    Result<Option<Transaction>, ApiError>)
    ensures
        final(ledger)@ == after_levy(old(ledger)@, outcome),
        moved(old(ledger)@, final(ledger)@, wallet_id@, LEVY_POOL@, levied(outcome)),
        if wallet_ids(users@).contains(wallet_id@) {
            levy_outcome(old(ledger)@, users[owner_of(users@, wallet_id@)], outcome)
        } else {
            outcome matches Err(ApiError::UnknownWallet)
        },
{
    match find_user_by_wallet_id(users, wallet_id) {
        Some(i) => apply_levy(ledger, &users[i], Timestamp::now(), fresh_id(), fresh_id()),
        None => Err(ApiError::UnknownWallet),
    }
}

/// What a caller is told of an accepted transaction.
pub fn transaction_response(tx: &Transaction) -> (response: TransactionResponse)
    ensures
        response.transaction_hash@ == tx@.transaction_hash,
        response.status == tx.status,
{
    TransactionResponse { transaction_hash: tx.transaction_hash.clone(), status: tx.status }
}

} // verus!
