//! The unspent-output ledger: who owns which fragment of value, which
//! fragments are spent, and how a transfer moves value between wallets.

use vstd::prelude::*;
use vstd::string::*;

use crate::error::ApiError;
use crate::models::{Transaction, TransactionView, UTXO, UtxoStatus, UtxoView, texts};
use crate::text::same_text;

verus! {

/// The views of a sequence of outputs.
pub open spec fn utxo_views(utxos: Seq<UTXO>) -> Seq<UtxoView> {
    utxos.map_values(|u: UTXO| u@)
}

/// The output is unspent and belongs to `wallet`.
pub open spec fn owned_unspent(u: UtxoView, wallet: Seq<char>) -> bool {
    u.status == UtxoStatus::Unspent && u.wallet_id == wallet
}

/// What an output adds to the unspent value of `wallet`, or of all
/// wallets when none is named.
pub open spec fn counted_amount(u: UtxoView, wallet: Option<Seq<char>>) -> nat {
    if u.status == UtxoStatus::Unspent && (wallet matches Some(w) ==> u.wallet_id == w) {
        u.amount
    } else {
        0
    }
}

/// The sum of the unspent amounts of `wallet`, or of all wallets when
/// none is named.
pub open spec fn unspent_value(utxos: Seq<UtxoView>, wallet: Option<Seq<char>>) -> nat
    decreases utxos.len(),
{
    if utxos.len() == 0 {
        0
    } else {
        unspent_value(utxos.drop_last(), wallet) + counted_amount(utxos.last(), wallet)
    }
}

/// A wallet's balance: the sum of its unspent amounts.
pub open spec fn balance_in(utxos: Seq<UtxoView>, wallet: Seq<char>) -> nat {
    unspent_value(utxos, Some(wallet))
}

/// The value that the ledger holds unspent, over all wallets.
pub open spec fn total_unspent(utxos: Seq<UtxoView>) -> nat {
    unspent_value(utxos, None)
}

/// The unspent outputs of `wallet`, in the order in which they arrived.
pub open spec fn unspent_of(utxos: Seq<UtxoView>, wallet: Seq<char>) -> Seq<UtxoView> {
    utxos.filter(|u: UtxoView| owned_unspent(u, wallet))
}

/// The sum of the amounts of a list of outputs.
pub open spec fn sum_amounts(utxos: Seq<UtxoView>) -> nat
    decreases utxos.len(),
{
    if utxos.len() == 0 {
        0
    } else {
        sum_amounts(utxos.drop_last()) + utxos.last().amount
    }
}

/// Some output carries the identifier `id`.
pub open spec fn has_id(utxos: Seq<UtxoView>, id: Seq<char>) -> bool {
    exists|i: int| 0 <= i < utxos.len() && #[trigger] utxos[i].utxo_id == id
}

/// No two outputs share an identifier.
pub open spec fn ids_distinct(utxos: Seq<UtxoView>) -> bool {
    forall|i: int, j: int|
        0 <= i < j < utxos.len() ==> #[trigger] utxos[i].utxo_id != #[trigger] utxos[j].utxo_id
}

/// A ledger is well formed when its outputs are keyed by identifier and
/// its unspent value fits in 64 bits.
pub open spec fn well_formed(utxos: Seq<UtxoView>) -> bool {
    ids_distinct(utxos) && total_unspent(utxos) <= u64::MAX
}

/// First-fit selection takes the first `count` of a wallet's unspent
/// outputs: at least one where there is any, and then as few as reach
/// `amount`.
pub open spec fn first_fit(unspent: Seq<UtxoView>, amount: nat, count: nat) -> bool {
    &&& count <= unspent.len()
    &&& unspent.len() > 0 ==> count >= 1
    &&& sum_amounts(unspent.take(count as int)) >= amount
    &&& forall|j: int| 1 <= j < count ==> sum_amounts(#[trigger] unspent.take(j)) < amount
}

/// How many of a wallet's unspent outputs first-fit selection takes to
/// pay `amount`.
pub open spec fn selection_count(unspent: Seq<UtxoView>, amount: nat) -> nat {
    choose|count: nat| first_fit(unspent, amount, count)
}

/// First-fit selection has one answer.
pub proof fn first_fit_is_unique(unspent: Seq<UtxoView>, amount: nat, a: nat, b: nat)
    requires
        first_fit(unspent, amount, a),
        first_fit(unspent, amount, b),
    ensures
        a == b,
{
}

/// A new output would take an identifier that is in use: that of an
/// output of the ledger, or, for the change, that of the recipient's
/// output.
pub open spec fn ids_collide(utxos: Seq<UtxoView>, tx: TransactionView) -> bool {
    has_id(utxos, tx.output_utxo) || (tx.change_utxo matches Some(id) && (has_id(utxos, id) || id
        == tx.output_utxo))
}

/// Appending an output adds what it counts for.
pub proof fn lemma_value_after_push(utxos: Seq<UtxoView>, u: UtxoView, wallet: Option<Seq<char>>)
    ensures
        unspent_value(utxos.push(u), wallet) == unspent_value(utxos, wallet) + counted_amount(
            u,
            wallet,
        ),
{
    assert(utxos.push(u).drop_last() =~= utxos);
}

/// A wallet's balance is part of the ledger's unspent value.
pub proof fn lemma_balance_within_total(utxos: Seq<UtxoView>, wallet: Seq<char>)
    ensures
        balance_in(utxos, wallet) <= total_unspent(utxos),
    decreases utxos.len(),
{
    if utxos.len() > 0 {
        lemma_balance_within_total(utxos.drop_last(), wallet);
    }
}

/// The unspent value of the first `k` outputs does not exceed that of all.
pub proof fn lemma_value_of_prefix(utxos: Seq<UtxoView>, k: int, wallet: Option<Seq<char>>)
    requires
        0 <= k <= utxos.len(),
    ensures
        unspent_value(utxos.take(k), wallet) <= unspent_value(utxos, wallet),
    decreases utxos.len(),
{
    if k == utxos.len() {
        assert(utxos.take(k) =~= utxos);
    } else {
        assert(utxos.drop_last().take(k) =~= utxos.take(k));
        lemma_value_of_prefix(utxos.drop_last(), k, wallet);
    }
}

/// The sum of the first `k` amounts does not exceed the sum of all.
pub proof fn lemma_sum_of_prefix(utxos: Seq<UtxoView>, k: int)
    requires
        0 <= k <= utxos.len(),
    ensures
        sum_amounts(utxos.take(k)) <= sum_amounts(utxos),
    decreases utxos.len(),
{
    if k == utxos.len() {
        assert(utxos.take(k) =~= utxos);
    } else {
        assert(utxos.drop_last().take(k) =~= utxos.take(k));
        lemma_sum_of_prefix(utxos.drop_last(), k);
    }
}

/// A wallet's balance is the sum of the amounts of its unspent outputs.
pub proof fn lemma_balance_is_sum_of_unspent(utxos: Seq<UtxoView>, wallet: Seq<char>)
    ensures
        balance_in(utxos, wallet) == sum_amounts(unspent_of(utxos, wallet)),
    decreases utxos.len(),
{
    reveal(Seq::filter);
    if utxos.len() > 0 {
        lemma_balance_is_sum_of_unspent(utxos.drop_last(), wallet);
        let rest = unspent_of(utxos.drop_last(), wallet);
        if owned_unspent(utxos.last(), wallet) {
            assert(rest.push(utxos.last()).drop_last() =~= rest);
        }
    }
}

/// The block hash that an output carries until its transaction is mined.
pub const PENDING_BLOCK: &'static str = "pending";

/// The ledger with every output named in `ids` marked spent.
pub open spec fn mark_spent(utxos: Seq<UtxoView>, ids: Seq<Seq<char>>) -> Seq<UtxoView> {
    Seq::new(
        utxos.len(),
        |i: int|
            if ids.contains(utxos[i].utxo_id) {
                UtxoView { status: UtxoStatus::Spent, ..utxos[i] }
            } else {
                utxos[i]
            },
    )
}

/// The sum of the amounts of the outputs named in `ids`.
pub open spec fn input_value(utxos: Seq<UtxoView>, ids: Seq<Seq<char>>) -> nat
    decreases utxos.len(),
{
    if utxos.len() == 0 {
        0
    } else {
        input_value(utxos.drop_last(), ids) + if ids.contains(utxos.last().utxo_id) {
            utxos.last().amount
        } else {
            0
        }
    }
}

/// `id` names an unspent output of `sender`.
pub open spec fn spendable_by(utxos: Seq<UtxoView>, sender: Seq<char>, id: Seq<char>) -> bool {
    exists|i: int|
        0 <= i < utxos.len() && #[trigger] utxos[i].utxo_id == id && owned_unspent(
            utxos[i],
            sender,
        )
}

/// Every identifier in `ids` names an unspent output of `sender`, and
/// none is named twice.
pub open spec fn spendable(utxos: Seq<UtxoView>, sender: Seq<char>, ids: Seq<Seq<char>>) -> bool {
    &&& ids.no_duplicates()
    &&& forall|k: int| 0 <= k < ids.len() ==> spendable_by(utxos, sender, #[trigger] ids[k])
}

/// The block hash that a transaction's outputs carry: that of the
/// transaction, or `pending` while it has none.
pub open spec fn output_block(tx: TransactionView) -> Seq<char> {
    match tx.block_hash {
        Some(hash) => hash,
        None => PENDING_BLOCK@,
    }
}

/// What a transaction's inputs hold beyond its amount.
pub open spec fn change_due(utxos: Seq<UtxoView>, tx: TransactionView) -> int {
    input_value(utxos, tx.input_utxos) - tx.amount
}

/// The output that a transaction makes for its recipient.
pub open spec fn output_of(tx: TransactionView) -> UtxoView {
    UtxoView {
        utxo_id: tx.output_utxo,
        wallet_id: tx.recipient_wallet_id,
        amount: tx.amount,
        status: UtxoStatus::Unspent,
        block_hash: output_block(tx),
        transaction_hash: tx.transaction_hash,
        created_at: tx.timestamp,
    }
}

/// The output that returns `change` to a transaction's sender.
pub open spec fn change_of(tx: TransactionView, change: nat) -> UtxoView {
    UtxoView {
        utxo_id: tx.change_utxo.unwrap(),
        wallet_id: tx.sender_wallet_id,
        amount: change,
        status: UtxoStatus::Unspent,
        block_hash: output_block(tx),
        transaction_hash: tx.transaction_hash,
        created_at: tx.timestamp,
    }
}

/// Why a ledger turns a transaction down, if it does: the first of
/// these that applies.  An input is not a distinct unspent output of the
/// sender; the inputs do not cover the amount; they exceed it and the
/// transaction names no change output; an output to be made would take
/// an identifier that is in use.
pub open spec fn settle_refusal(utxos: Seq<UtxoView>, tx: TransactionView) -> Option<ApiError> {
    if !spendable(utxos, tx.sender_wallet_id, tx.input_utxos) {
        Some(ApiError::SpendConflict)
    } else if change_due(utxos, tx) < 0 {
        Some(ApiError::InsufficientBalance)
    } else if change_due(utxos, tx) > 0 && tx.change_utxo is None {
        Some(ApiError::InvalidAmount)
    } else if has_id(utxos, tx.output_utxo) || (change_due(utxos, tx) > 0 && (has_id(
        utxos,
        tx.change_utxo.unwrap(),
    ) || tx.change_utxo.unwrap() == tx.output_utxo)) {
        Some(ApiError::DuplicateUtxo)
    } else {
        None
    }
}

/// The ledger after a transaction is settled: its inputs spent, the
/// recipient's output made, and the sender's change where any is due.
pub open spec fn settled(utxos: Seq<UtxoView>, tx: TransactionView) -> Seq<UtxoView> {
    let paid = mark_spent(utxos, tx.input_utxos).push(output_of(tx));
    if change_due(utxos, tx) > 0 {
        paid.push(change_of(tx, change_due(utxos, tx) as nat))
    } else {
        paid
    }
}

/// The outputs named in `ids` are all unspent outputs of `sender`.
pub open spec fn named_are_owned(
    utxos: Seq<UtxoView>,
    sender: Seq<char>,
    ids: Seq<Seq<char>>,
) -> bool {
    forall|i: int|
        0 <= i < utxos.len() && ids.contains(#[trigger] utxos[i].utxo_id) ==> owned_unspent(
            utxos[i],
            sender,
        )
}

/// Marking the named outputs spent takes their value from the sender's
/// balance and from the ledger's unspent value, and from no other wallet.
pub proof fn lemma_value_after_marking(
    utxos: Seq<UtxoView>,
    sender: Seq<char>,
    ids: Seq<Seq<char>>,
    wallet: Option<Seq<char>>,
)
    requires
        named_are_owned(utxos, sender, ids),
    ensures
        unspent_value(mark_spent(utxos, ids), wallet) + (if wallet is None || wallet == Some(
            sender,
        ) {
            input_value(utxos, ids)
        } else {
            0
        }) == unspent_value(utxos, wallet),
    decreases utxos.len(),
{
    if utxos.len() > 0 {
        let rest = utxos.drop_last();
        assert(mark_spent(utxos, ids).drop_last() =~= mark_spent(rest, ids));
        lemma_value_after_marking(rest, sender, ids, wallet);
    }
}

/// Naming an identifier that no output carries adds nothing to the value
/// of the inputs.
pub proof fn lemma_input_value_of_absent(
    utxos: Seq<UtxoView>,
    ids: Seq<Seq<char>>,
    id: Seq<char>,
)
    requires
        !has_id(utxos, id),
    ensures
        input_value(utxos, ids.push(id)) == input_value(utxos, ids),
    decreases utxos.len(),
{
    if utxos.len() > 0 {
        let rest = utxos.drop_last();
        lemma_input_value_of_absent(rest, ids, id);
        lemma_contains_after_push(ids, id, utxos.last().utxo_id);
    }
}

/// What a list of identifiers contains once one more is put behind it.
pub proof fn lemma_contains_after_push(ids: Seq<Seq<char>>, id: Seq<char>, other: Seq<char>)
    ensures
        ids.push(id).contains(other) == (ids.contains(other) || other == id),
{
    if ids.contains(other) {
        let k = choose|k: int| 0 <= k < ids.len() && ids[k] == other;
        assert(ids.push(id)[k] == other);
    }
    if other == id {
        assert(ids.push(id)[ids.len() as int] == other);
    }
}

/// Naming one more output, not named before, adds its amount to the value
/// of the inputs.
pub proof fn lemma_input_value_of_next(
    utxos: Seq<UtxoView>,
    ids: Seq<Seq<char>>,
    id: Seq<char>,
    at: int,
)
    requires
        ids_distinct(utxos),
        0 <= at < utxos.len(),
        utxos[at].utxo_id == id,
        !ids.contains(id),
    ensures
        input_value(utxos, ids.push(id)) == input_value(utxos, ids) + utxos[at].amount,
    decreases utxos.len(),
{
    let rest = utxos.drop_last();
    let last = utxos.last();
    lemma_contains_after_push(ids, id, last.utxo_id);
    if at == utxos.len() - 1 {
        lemma_input_value_of_absent(rest, ids, id);
    } else {
        lemma_input_value_of_next(rest, ids, id, at);
    }
}

/// Between two states of a ledger `amount` has moved from the wallet
/// `from` to the wallet `to`: the ledger's unspent value is as it was,
/// and every balance is as it was but for what `from` gave and `to` got.
pub open spec fn moved(
    before: Seq<UtxoView>,
    after: Seq<UtxoView>,
    from: Seq<char>,
    to: Seq<char>,
    amount: nat,
) -> bool {
    &&& total_unspent(after) == total_unspent(before)
    &&& forall|wallet: Seq<char>| #[trigger]
        balance_in(after, wallet) == balance_in(before, wallet) - (if wallet == from {
            amount as int
        } else {
            0
        }) + (if wallet == to {
            amount as int
        } else {
            0
        })
}

/// Value is conserved: settling a transaction takes its amount from the
/// sender's balance and adds it to the recipient's, leaves every other
/// balance alone, and keeps the ledger's unspent value and invariant.
pub proof fn settlement_conserves_value(utxos: Seq<UtxoView>, tx: TransactionView)
    requires
        well_formed(utxos),
        settle_refusal(utxos, tx) is None,
    ensures
        well_formed(settled(utxos, tx)),
        moved(utxos, settled(utxos, tx), tx.sender_wallet_id, tx.recipient_wallet_id, tx.amount),
        total_unspent(settled(utxos, tx)) == total_unspent(utxos),
        tx.sender_wallet_id != tx.recipient_wallet_id ==> {
            &&& balance_in(settled(utxos, tx), tx.sender_wallet_id) == balance_in(
                utxos,
                tx.sender_wallet_id,
            ) - tx.amount
            &&& balance_in(settled(utxos, tx), tx.recipient_wallet_id) == balance_in(
                utxos,
                tx.recipient_wallet_id,
            ) + tx.amount
        },
        tx.sender_wallet_id == tx.recipient_wallet_id ==> balance_in(
            settled(utxos, tx),
            tx.sender_wallet_id,
        ) == balance_in(utxos, tx.sender_wallet_id),
        forall|wallet: Seq<char>|
            wallet != tx.sender_wallet_id && wallet != tx.recipient_wallet_id ==> #[trigger] balance_in(
                settled(utxos, tx),
                wallet,
            ) == balance_in(utxos, wallet),
{
    let sender = tx.sender_wallet_id;
    let ids = tx.input_utxos;
    let marked = mark_spent(utxos, ids);
    let paid = marked.push(output_of(tx));
    let after = settled(utxos, tx);
    lemma_value_after_marking(utxos, sender, ids, None);
    lemma_value_after_push(marked, output_of(tx), None);
    if change_due(utxos, tx) > 0 {
        lemma_value_after_push(paid, change_of(tx, change_due(utxos, tx) as nat), None);
    }
    assert forall|wallet: Seq<char>| true implies #[trigger] balance_in(after, wallet)
        == balance_in(utxos, wallet) - (if wallet == sender {
        tx.amount as int
    } else {
        0
    }) + (if wallet == tx.recipient_wallet_id {
        tx.amount as int
    } else {
        0
    }) by {
        lemma_value_after_marking(utxos, sender, ids, Some(wallet));
        lemma_value_after_push(marked, output_of(tx), Some(wallet));
        if change_due(utxos, tx) > 0 {
            lemma_value_after_push(
                paid,
                change_of(tx, change_due(utxos, tx) as nat),
                Some(wallet),
            );
        }
    }
}

/// With no identifier named, the inputs hold nothing.
pub proof fn lemma_input_value_of_nothing(utxos: Seq<UtxoView>)
    ensures
        input_value(utxos, Seq::empty()) == 0,
    decreases utxos.len(),
{
    if utxos.len() > 0 {
        lemma_input_value_of_nothing(utxos.drop_last());
    }
}

/// The identifiers of a list of outputs, in order.
pub open spec fn ids_of(utxos: Seq<UtxoView>) -> Seq<Seq<char>> {
    utxos.map_values(|u: UtxoView| u.utxo_id)
}

/// `u` is one of the outputs of the ledger, unspent and owned by `wallet`.
pub open spec fn held_unspent(utxos: Seq<UtxoView>, wallet: Seq<char>, u: UtxoView) -> bool {
    exists|i: int| 0 <= i < utxos.len() && #[trigger] utxos[i] == u && owned_unspent(u, wallet)
}

/// In a ledger keyed by identifier, the unspent outputs of a wallet are
/// outputs of the ledger and no two of them share an identifier.
pub proof fn lemma_unspent_are_held(utxos: Seq<UtxoView>, wallet: Seq<char>)
    requires
        ids_distinct(utxos),
    ensures
        ids_distinct(unspent_of(utxos, wallet)),
        forall|j: int|
            0 <= j < unspent_of(utxos, wallet).len() ==> held_unspent(
                utxos,
                wallet,
                #[trigger] unspent_of(utxos, wallet)[j],
            ),
    decreases utxos.len(),
{
    reveal(Seq::filter);
    if utxos.len() > 0 {
        let rest = utxos.drop_last();
        lemma_unspent_are_held(rest, wallet);
    }
}

/// The first outputs of a wallet's unspent list can be spent by it, and
/// the value of the inputs they name is the sum of their amounts.
pub proof fn lemma_selection_is_spendable(utxos: Seq<UtxoView>, wallet: Seq<char>, count: int)
    requires
        ids_distinct(utxos),
        0 <= count <= unspent_of(utxos, wallet).len(),
    ensures
        spendable(utxos, wallet, ids_of(unspent_of(utxos, wallet).take(count))),
        input_value(utxos, ids_of(unspent_of(utxos, wallet).take(count))) == sum_amounts(
            unspent_of(utxos, wallet).take(count),
        ),
    decreases count,
{
    let all = unspent_of(utxos, wallet);
    let chosen = all.take(count);
    let ids = ids_of(chosen);
    lemma_unspent_are_held(utxos, wallet);
    if count == 0 {
        assert(ids =~= Seq::<Seq<char>>::empty());
        lemma_input_value_of_nothing(utxos);
    } else {
        let fewer = all.take(count - 1);
        let next = all[count - 1];
        lemma_selection_is_spendable(utxos, wallet, count - 1);
        assert(chosen.drop_last() =~= fewer);
        assert(ids =~= ids_of(fewer).push(next.utxo_id));
        let at = choose|i: int|
            0 <= i < utxos.len() && #[trigger] utxos[i] == next && owned_unspent(next, wallet);
        lemma_input_value_of_next(utxos, ids_of(fewer), next.utxo_id, at);
    }
}

/// The identifiers of a list of outputs.
pub fn identifiers(utxos: &Vec<UTXO>) -> (ids: Vec<String>)
    ensures
        texts(ids@) == ids_of(utxo_views(utxos@)),
{
    let mut ids: Vec<String> = Vec::new();
    let mut i: usize = 0;
    while i < utxos.len()
        invariant
            i <= utxos.len(),
            ids.len() == i,
            forall|j: int| 0 <= j < i ==> ids[j]@ == utxos[j].utxo_id@,
        decreases utxos.len() - i,
    {
        ids.push(utxos[i].utxo_id.clone());
        i += 1;
    }
    assert(texts(ids@) =~= ids_of(utxo_views(utxos@)));
    ids
}

/// Tells whether `id` is among `ids`.
pub fn contains_text(ids: &Vec<String>, id: &str) -> (found: bool)
    ensures
        found == texts(ids@).contains(id@),
{
    let mut k: usize = 0;
    while k < ids.len()
        invariant
            k <= ids.len(),
            forall|j: int| 0 <= j < k ==> texts(ids@)[j] != id@,
        decreases ids.len() - k,
    {
        if same_text(ids[k].as_str(), id) {
            assert(texts(ids@)[k as int] == id@);
            return true;
        }
        k += 1;
    }
    false
}

/// Tells whether no text occurs twice in `ids`.
pub fn all_distinct(ids: &Vec<String>) -> (distinct: bool)
    ensures
        distinct == texts(ids@).no_duplicates(),
{
    let ghost all = texts(ids@);
    let mut k: usize = 0;
    while k < ids.len()
        invariant
            k <= ids.len(),
            all == texts(ids@),
            forall|i: int, j: int| 0 <= i < j < k ==> all[i] != all[j],
        decreases ids.len() - k,
    {
        let mut m: usize = 0;
        while m < k
            invariant
                m <= k < ids.len(),
                all == texts(ids@),
                forall|i: int| 0 <= i < m ==> all[i] != all[k as int],
            decreases k - m,
        {
            if same_text(ids[m].as_str(), ids[k].as_str()) {
                assert(all[m as int] == all[k as int]);
                return false;
            }
            m += 1;
        }
        k += 1;
    }
    true
}

/// The ledger: every output ever made, in the order of arrival.
///
/// A ledger is keyed by identifier and its unspent value fits in 64 bits.
/// That is an invariant of the type: every operation keeps it, and none
/// has to ask for it.  An operation that changes the ledger borrows it
/// exclusively, so that the selection of a transfer's inputs and their
/// settlement can be one step.
#[derive(Debug)]
pub struct UtxoLedger {
    utxos: Vec<UTXO>,
}

impl View for UtxoLedger {
    type V = Seq<UtxoView>;

    closed spec fn view(&self) -> Seq<UtxoView> {
        utxo_views(self.utxos@)
    }
}

impl UtxoLedger {
    /// What holds of every ledger at all times.
    #[verifier::type_invariant]
    closed spec fn always_well_formed(&self) -> bool {
        well_formed(utxo_views(self.utxos@))
    }

    /// The ledger is well formed.  Every ledger is; the operations say so
    /// of the ledger they are given.
    pub open spec fn wf(&self) -> bool {
        well_formed(self@)
    }

    /// A ledger without outputs.
    pub fn new() -> (ledger: Self)
        ensures
            ledger@ == Seq::<UtxoView>::empty(),
            ledger.wf(),
    {
        let ledger = UtxoLedger { utxos: Vec::new() };
        ledger
    }

    /// The outputs, spent and unspent, in the order of arrival.
    pub fn entries(&self) -> (entries: &Vec<UTXO>)
        ensures
            utxo_views(entries@) == self@,
            self.wf(),
    {
        proof {
            use_type_invariant(self);
        }
        &self.utxos
    }

    /// The place of the first output that carries `id`, if there is one.
    pub fn position_of(&self, id: &str) -> (place: Option<usize>)
        ensures
            match place {
                Some(i) => {
                    &&& i < self@.len()
                    &&& self@[i as int].utxo_id == id@
                    &&& forall|j: int| 0 <= j < i ==> self@[j].utxo_id != id@
                },
                None => !has_id(self@, id@),
            },
    {
        let mut i: usize = 0;
        while i < self.utxos.len()
            invariant
                i <= self.utxos.len(),
                forall|j: int| 0 <= j < i ==> self@[j].utxo_id != id@,
            decreases self.utxos.len() - i,
        {
            if same_text(self.utxos[i].utxo_id.as_str(), id) {
                return Some(i);
            }
            i += 1;
        }
        None
    }

    /// The value that the ledger holds unspent.
    pub fn unspent_total(&self) -> (total: u64)
        ensures
            total == total_unspent(self@),
            self.wf(),
    {
        proof {
            use_type_invariant(self);
        }
        let mut total: u64 = 0;
        let mut i: usize = 0;
        while i < self.utxos.len()
            invariant
                i <= self.utxos.len(),
                self.wf(),
                total == total_unspent(self@.take(i as int)),
            decreases self.utxos.len() - i,
        {
            proof {
                assert(self@.take(i + 1).drop_last() =~= self@.take(i as int));
                lemma_value_of_prefix(self@, i + 1, None);
            }
            if matches!(self.utxos[i].status, UtxoStatus::Unspent) {
                total = total + self.utxos[i].amount;
            }
            i += 1;
        }
        assert(self@.take(i as int) =~= self@);
        total
    }

    /// Takes a new output into the ledger.  An output whose identifier is
    /// taken, or whose amount the ledger's unspent value cannot take in,
    /// is turned down and the ledger stays as it was.
    pub fn append_utxo(&mut self, utxo: UTXO) -> (outcome: Result<(), ApiError>)
        ensures
            old(self).wf(),
            final(self).wf(),
            match outcome {
                Ok(()) => final(self)@ == old(self)@.push(utxo@),
                Err(e) => final(self)@ == old(self)@ && if has_id(old(self)@, utxo@.utxo_id) {
                    e == ApiError::DuplicateUtxo
                } else {
                    e == ApiError::ValueOverflow
                },
            },
            outcome is Ok <==> !has_id(old(self)@, utxo@.utxo_id) && total_unspent(old(self)@)
                + counted_amount(utxo@, None) <= u64::MAX,
    {
        proof {
            use_type_invariant(&*self);
        }
        if self.position_of(utxo.utxo_id.as_str()).is_some() {
            return Err(ApiError::DuplicateUtxo);
        }
        let total = self.unspent_total();
        if matches!(utxo.status, UtxoStatus::Unspent) && utxo.amount > u64::MAX - total {
            return Err(ApiError::ValueOverflow);
        }
        proof {
            lemma_value_after_push(self@, utxo@, None);
        }
        let ghost before = self@;
        let mut next: Vec<UTXO> = Vec::new();
        core::mem::swap(&mut self.utxos, &mut next);
        next.push(utxo);
        assert(utxo_views(next@) =~= before.push(utxo@));
        self.utxos = next;
        Ok(())
    }

    /// The unspent outputs of `wallet`, in the order of arrival.
    pub fn unspent_for(&self, wallet: &str) -> (unspent: Vec<UTXO>)
        ensures
            utxo_views(unspent@) == unspent_of(self@, wallet@),
    {
        let mut unspent: Vec<UTXO> = Vec::new();
        let mut i: usize = 0;
        while i < self.utxos.len()
            invariant
                i <= self.utxos.len(),
                utxo_views(unspent@) == unspent_of(self@.take(i as int), wallet@),
            decreases self.utxos.len() - i,
        {
            proof {
                reveal(Seq::filter);
                assert(self@.take(i + 1).drop_last() =~= self@.take(i as int));
            }
            if matches!(self.utxos[i].status, UtxoStatus::Unspent) && same_text(
                self.utxos[i].wallet_id.as_str(),
                wallet,
            ) {
                unspent.push(self.utxos[i].clone());
            }
            i += 1;
        }
        assert(self@.take(i as int) =~= self@);
        unspent
    }

    /// The balance of `wallet`: the sum of its unspent amounts, computed
    /// afresh at every call.
    pub fn balance_of(&self, wallet: &str) -> (balance: u64)
        ensures
            balance == balance_in(self@, wallet@),
            self.wf(),
    {
        proof {
            use_type_invariant(self);
        }
        let mut balance: u64 = 0;
        let mut i: usize = 0;
        while i < self.utxos.len()
            invariant
                i <= self.utxos.len(),
                self.wf(),
                balance == balance_in(self@.take(i as int), wallet@),
            decreases self.utxos.len() - i,
        {
            proof {
                assert(self@.take(i + 1).drop_last() =~= self@.take(i as int));
                lemma_value_of_prefix(self@, i + 1, Some(wallet@));
                lemma_balance_within_total(self@, wallet@);
            }
            if matches!(self.utxos[i].status, UtxoStatus::Unspent) && same_text(
                self.utxos[i].wallet_id.as_str(),
                wallet,
            ) {
                balance = balance + self.utxos[i].amount;
            }
            i += 1;
        }
        assert(self@.take(i as int) =~= self@);
        balance
    }

    /// Chooses the outputs that pay for `amount` from `wallet`: its unspent
    /// outputs in the order of arrival, the first one always and then as
    /// many as it takes to reach the amount.  Fails with
    /// `InsufficientBalance` exactly when the balance is below `amount`.
    pub fn select_inputs(&self, wallet: &str, amount: u64) -> (outcome: Result<
        (Vec<UTXO>, u64),
        ApiError,
    >)
        ensures
            self.wf(),
            outcome is Ok <==> balance_in(self@, wallet@) >= amount,
            match outcome {
                Ok((selected, total)) => {
                    &&& first_fit(unspent_of(self@, wallet@), amount as nat, selected@.len())
                    &&& utxo_views(selected@) == unspent_of(self@, wallet@).take(
                        selected@.len() as int,
                    )
                    &&& total == sum_amounts(utxo_views(selected@))
                    &&& total >= amount
                },
                Err(e) => e == ApiError::InsufficientBalance,
            },
    {
        let unspent = self.unspent_for(wallet);
        let ghost all = utxo_views(unspent@);
        proof {
            lemma_balance_is_sum_of_unspent(self@, wallet@);
        }
        let balance = self.balance_of(wallet);
        if balance < amount {
            return Err(ApiError::InsufficientBalance);
        }
        let mut selected: Vec<UTXO> = Vec::new();
        let mut total: u64 = 0;
        let mut i: usize = 0;
        while i < unspent.len()
            invariant
                i <= unspent.len(),
                self.wf(),
                all == utxo_views(unspent@),
                all == unspent_of(self@, wallet@),
                balance_in(self@, wallet@) >= amount,
                amount <= sum_amounts(all) <= u64::MAX,
                selected.len() == i,
                utxo_views(selected@) == all.take(i as int),
                total == sum_amounts(all.take(i as int)),
                forall|j: int| 1 <= j <= i ==> sum_amounts(#[trigger] all.take(j)) < amount,
            decreases unspent.len() - i,
        {
            proof {
                assert(all.take(i + 1).drop_last() =~= all.take(i as int));
                lemma_sum_of_prefix(all, i + 1);
            }
            selected.push(unspent[i].clone());
            total = total + unspent[i].amount;
            i += 1;
            assert(utxo_views(selected@) =~= all.take(i as int));
            if total >= amount {
                return Ok((selected, total));
            }
        }
        proof {
            assert(all.take(i as int) =~= all);
        }
        Ok((selected, total))
    }

    /// Settles a transaction as one step: marks each input spent, makes
    /// the recipient's output, and makes the sender's change output when
    /// the inputs hold more than the amount.  The new outputs are stamped
    /// with the transaction's time and carry its block hash, or `pending`
    /// while it has none.  A transaction that is turned down
    /// leaves the ledger as it was.
    pub fn settle(&mut self, tx: &Transaction) -> (outcome: Result<(), ApiError>)
        ensures
            old(self).wf(),
            final(self).wf(),
            match outcome {
                Ok(()) => settle_refusal(old(self)@, tx@) is None && final(self)@ == settled(
                    old(self)@,
                    tx@,
                ),
                Err(e) => settle_refusal(old(self)@, tx@) == Some(e) && final(self)@ == old(
                    self,
                )@,
            },
            outcome is Ok ==> moved(
                old(self)@,
                final(self)@,
                tx@.sender_wallet_id,
                tx@.recipient_wallet_id,
                tx@.amount,
            ),
            outcome is Ok ==> total_unspent(final(self)@) == total_unspent(old(self)@),
            outcome is Ok && tx@.sender_wallet_id != tx@.recipient_wallet_id ==> {
                &&& balance_in(final(self)@, tx@.sender_wallet_id) == balance_in(
                    old(self)@,
                    tx@.sender_wallet_id,
                ) - tx@.amount
                &&& balance_in(final(self)@, tx@.recipient_wallet_id) == balance_in(
                    old(self)@,
                    tx@.recipient_wallet_id,
                ) + tx@.amount
            },
    {
        proof {
            use_type_invariant(&*self);
        }
        let ghost before = self@;
        let ghost ids = tx@.input_utxos;
        let ghost sender = tx@.sender_wallet_id;
        if !all_distinct(&tx.input_utxos) {
            return Err(ApiError::SpendConflict);
        }
        let mut total: u128 = 0;
        let mut k: usize = 0;
        assert(ids.take(0) =~= Seq::<Seq<char>>::empty());
        proof {
            lemma_input_value_of_nothing(before);
        }
        while k < tx.input_utxos.len()
            invariant
                k <= tx.input_utxos.len(),
                before == self@,
                self.wf(),
                ids == tx@.input_utxos,
                sender == tx@.sender_wallet_id,
                ids.no_duplicates(),
                forall|j: int| 0 <= j < k ==> spendable_by(before, sender, #[trigger] ids[j]),
                total == input_value(before, ids.take(k as int)),
                total <= k * u64::MAX,
            decreases tx.input_utxos.len() - k,
        {
            let id = tx.input_utxos[k].as_str();
            assert(id@ == ids[k as int]);
            match self.position_of(id) {
                None => {
                    return Err(ApiError::SpendConflict);
                },
                Some(at) => {
                    let entry = &self.utxos[at];
                    if !(matches!(entry.status, UtxoStatus::Unspent) && same_text(
                        entry.wallet_id.as_str(),
                        tx.sender_wallet_id.as_str(),
                    )) {
                        return Err(ApiError::SpendConflict);
                    }
                    proof {
                        assert(ids.take(k + 1) =~= ids.take(k as int).push(ids[k as int]));
                        lemma_input_value_of_next(
                            before,
                            ids.take(k as int),
                            ids[k as int],
                            at as int,
                        );
                    }
                    total = total + entry.amount as u128;
                },
            }
            k += 1;
        }
        proof {
            assert(ids.take(k as int) =~= ids);
            lemma_value_after_marking(before, sender, ids, None);
        }
        if total < tx.amount as u128 {
            return Err(ApiError::InsufficientBalance);
        }
        let change: u64 = (total - tx.amount as u128) as u64;
        if change > 0 && tx.change_utxo.is_none() {
            return Err(ApiError::InvalidAmount);
        }
        if self.position_of(tx.output_utxo.as_str()).is_some() {
            return Err(ApiError::DuplicateUtxo);
        }
        if change > 0 {
            match &tx.change_utxo {
                Some(change_id) => {
                    if self.position_of(change_id.as_str()).is_some() || same_text(
                        change_id.as_str(),
                        tx.output_utxo.as_str(),
                    ) {
                        return Err(ApiError::DuplicateUtxo);
                    }
                },
                None => {},
            }
        }
        proof {
            settlement_conserves_value(before, tx@);
        }
        let mut next: Vec<UTXO> = Vec::new();
        core::mem::swap(&mut self.utxos, &mut next);
        let mut i: usize = 0;
        while i < next.len()
            invariant
                i <= next.len(),
                next.len() == before.len(),
                ids == tx@.input_utxos,
                forall|j: int| 0 <= j < i ==> utxo_views(next@)[j] == mark_spent(before, ids)[j],
                forall|j: int| i <= j < before.len() ==> utxo_views(next@)[j] == before[j],
            decreases next.len() - i,
        {
            if contains_text(&tx.input_utxos, next[i].utxo_id.as_str()) {
                let mut entry = next[i].clone();
                entry.status = UtxoStatus::Spent;
                next.set(i, entry);
            }
            i += 1;
        }
        let block_hash = match &tx.block_hash {
            Some(hash) => hash.clone(),
            None => String::from_str(PENDING_BLOCK),
        };
        let output = UTXO {
            utxo_id: tx.output_utxo.clone(),
            wallet_id: tx.recipient_wallet_id.clone(),
            amount: tx.amount,
            status: UtxoStatus::Unspent,
            block_hash: block_hash.clone(),
            transaction_hash: tx.transaction_hash.clone(),
            created_at: tx.timestamp,
        };
        next.push(output);
        assert(utxo_views(next@) =~= mark_spent(before, ids).push(output_of(tx@)));
        if change > 0 {
            match &tx.change_utxo {
                Some(change_id) => {
                    let rest = UTXO {
                        utxo_id: change_id.clone(),
                        wallet_id: tx.sender_wallet_id.clone(),
                        amount: change,
                        status: UtxoStatus::Unspent,
                        block_hash,
                        transaction_hash: tx.transaction_hash.clone(),
                        created_at: tx.timestamp,
                    };
                    let ghost paid = utxo_views(next@);
                    next.push(rest);
                    assert(utxo_views(next@) =~= paid.push(change_of(tx@, change as nat)));
                },
                None => {},
            }
        }
        self.utxos = next;
        Ok(())
    }
}

} // verus!
