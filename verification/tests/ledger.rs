use ledger_core::error::ApiError;
use ledger_core::ledger::{all_distinct, contains_text, UtxoLedger};
use ledger_core::models::{Transaction, TransactionStatus, UtxoStatus, UTXO};
use ledger_core::time::Timestamp;

fn coin(id: &str, wallet: &str, amount: u64) -> UTXO {
    UTXO {
        utxo_id: id.to_string(),
        wallet_id: wallet.to_string(),
        amount,
        status: UtxoStatus::Unspent,
        block_hash: "pending".to_string(),
        transaction_hash: "earlier".to_string(),
        created_at: Timestamp::from_nanos(0),
    }
}

fn spent_coin(id: &str, wallet: &str, amount: u64) -> UTXO {
    let mut utxo = coin(id, wallet, amount);
    utxo.status = UtxoStatus::Spent;
    utxo
}

fn ledger_of(utxos: Vec<UTXO>) -> UtxoLedger {
    let mut ledger = UtxoLedger::new();
    for utxo in utxos {
        ledger.append_utxo(utxo).expect("the output is accepted");
    }
    ledger
}

fn payment(sender: &str, recipient: &str, amount: u64, inputs: &[&str], change: Option<&str>) -> Transaction {
    Transaction {
        transaction_hash: "payment-hash".to_string(),
        sender_wallet_id: sender.to_string(),
        recipient_wallet_id: recipient.to_string(),
        amount,
        note: None,
        timestamp: Timestamp::from_nanos(77),
        sender_public_key: "pk".to_string(),
        digital_signature: "sig".to_string(),
        input_utxos: inputs.iter().map(|id| id.to_string()).collect(),
        output_utxo: "out".to_string(),
        change_utxo: change.map(|id| id.to_string()),
        status: TransactionStatus::Pending,
        block_hash: None,
    }
}

fn made(id: &str, wallet: &str, amount: u64) -> UTXO {
    UTXO {
        utxo_id: id.to_string(),
        wallet_id: wallet.to_string(),
        amount,
        status: UtxoStatus::Unspent,
        block_hash: "pending".to_string(),
        transaction_hash: "payment-hash".to_string(),
        created_at: Timestamp::from_nanos(77),
    }
}

fn ids(utxos: &[UTXO]) -> Vec<String> {
    utxos.iter().map(|u| u.utxo_id.clone()).collect()
}

#[test]
fn new_ledger_is_empty() {
    let ledger = UtxoLedger::new();
    assert!(ledger.entries().is_empty());
    assert_eq!(ledger.balance_of("A"), 0);
    assert_eq!(ledger.unspent_total(), 0);
    assert!(ledger.unspent_for("A").is_empty());
    assert_eq!(ledger.position_of("u1"), None);
}

#[test]
fn appended_outputs_keep_their_order() {
    let ledger = ledger_of(vec![coin("u1", "A", 10), coin("u2", "B", 20), coin("u3", "A", 30)]);
    assert_eq!(ids(ledger.entries()), vec!["u1", "u2", "u3"]);
    assert_eq!(ledger.entries()[1], coin("u2", "B", 20));
    assert_eq!(ledger.position_of("u1"), Some(0));
    assert_eq!(ledger.position_of("u3"), Some(2));
    assert_eq!(ledger.position_of("u4"), None);
}

#[test]
fn append_rejects_a_taken_identifier() {
    let mut ledger = ledger_of(vec![coin("u1", "A", 10)]);
    assert_eq!(ledger.append_utxo(coin("u1", "B", 5)), Err(ApiError::DuplicateUtxo));
    assert_eq!(ledger.append_utxo(spent_coin("u1", "B", 5)), Err(ApiError::DuplicateUtxo));
    assert_eq!(ledger.entries().len(), 1);
    assert_eq!(ledger.entries()[0], coin("u1", "A", 10));
}

#[test]
fn append_rejects_value_beyond_sixty_four_bits() {
    let mut ledger = ledger_of(vec![coin("u1", "A", u64::MAX - 5), coin("u2", "B", 5)]);
    assert_eq!(ledger.unspent_total(), u64::MAX);
    assert_eq!(ledger.append_utxo(coin("u3", "A", 1)), Err(ApiError::ValueOverflow));
    assert_eq!(ledger.entries().len(), 2);
    assert_eq!(ledger.append_utxo(coin("u3", "A", 0)), Ok(()));
    assert_eq!(ledger.append_utxo(spent_coin("u4", "A", u64::MAX)), Ok(()));
    assert_eq!(ledger.unspent_total(), u64::MAX);
    assert_eq!(ledger.append_utxo(coin("u1", "A", 1)), Err(ApiError::DuplicateUtxo));
}

#[test]
fn balance_is_the_sum_of_the_unspent_outputs_of_the_wallet() {
    let ledger = ledger_of(vec![
        coin("u1", "A", 10),
        coin("u2", "B", 20),
        spent_coin("u3", "A", 100),
        coin("u4", "A", 30),
    ]);
    assert_eq!(ledger.balance_of("A"), 40);
    assert_eq!(ledger.balance_of("B"), 20);
    assert_eq!(ledger.balance_of("C"), 0);
    assert_eq!(ledger.unspent_total(), 60);
}

#[test]
fn unspent_outputs_come_in_arrival_order() {
    let ledger = ledger_of(vec![
        coin("u1", "A", 10),
        coin("u2", "B", 20),
        spent_coin("u3", "A", 100),
        coin("u4", "A", 30),
    ]);
    assert_eq!(ledger.unspent_for("A"), vec![coin("u1", "A", 10), coin("u4", "A", 30)]);
    assert_eq!(ledger.unspent_for("B"), vec![coin("u2", "B", 20)]);
    assert!(ledger.unspent_for("C").is_empty());
}

#[test]
fn selection_takes_the_first_outputs_that_reach_the_amount() {
    let ledger = ledger_of(vec![
        coin("u1", "A", 10),
        coin("x", "B", 1000),
        coin("u2", "A", 20),
        spent_coin("s", "A", 1000),
        coin("u3", "A", 30),
    ]);
    let (selected, total) = ledger.select_inputs("A", 25).unwrap();
    assert_eq!(ids(&selected), vec!["u1", "u2"]);
    assert_eq!(total, 30);
    let (selected, total) = ledger.select_inputs("A", 10).unwrap();
    assert_eq!(selected, vec![coin("u1", "A", 10)]);
    assert_eq!(total, 10);
    let (selected, total) = ledger.select_inputs("A", 11).unwrap();
    assert_eq!(ids(&selected), vec!["u1", "u2"]);
    assert_eq!(total, 30);
    let (selected, total) = ledger.select_inputs("A", 31).unwrap();
    assert_eq!(ids(&selected), vec!["u1", "u2", "u3"]);
    assert_eq!(total, 60);
    let (selected, total) = ledger.select_inputs("A", 60).unwrap();
    assert_eq!(ids(&selected), vec!["u1", "u2", "u3"]);
    assert_eq!(total, 60);
}

#[test]
fn selection_does_not_look_for_a_better_fit() {
    let ledger = ledger_of(vec![coin("u1", "A", 1), coin("u2", "A", 2), coin("u3", "A", 50)]);
    let (selected, total) = ledger.select_inputs("A", 50).unwrap();
    assert_eq!(ids(&selected), vec!["u1", "u2", "u3"]);
    assert_eq!(total, 53);
}

#[test]
fn selection_fails_exactly_when_the_balance_is_short() {
    let ledger = ledger_of(vec![coin("u1", "A", 10), coin("u2", "A", 20), coin("x", "B", 1000)]);
    assert!(ledger.select_inputs("A", 30).is_ok());
    assert_eq!(ledger.select_inputs("A", 31), Err(ApiError::InsufficientBalance));
    assert_eq!(ledger.select_inputs("A", u64::MAX), Err(ApiError::InsufficientBalance));
    assert_eq!(ledger.select_inputs("C", 1), Err(ApiError::InsufficientBalance));
}

#[test]
fn selection_total_is_never_below_the_amount() {
    let ledger = ledger_of(vec![coin("u1", "A", 3), coin("u2", "A", 0), coin("u3", "A", 9)]);
    for amount in 0..=12u64 {
        let (selected, total) = ledger.select_inputs("A", amount).unwrap();
        assert!(total >= amount);
        assert_eq!(total, selected.iter().map(|u| u.amount).sum::<u64>());
    }
    assert!(ledger.select_inputs("A", 13).is_err());
}

#[test]
fn selection_for_nothing_takes_the_first_output() {
    let ledger = ledger_of(vec![coin("u1", "A", 10), coin("u2", "A", 20)]);
    let (selected, total) = ledger.select_inputs("A", 0).unwrap();
    assert_eq!(ids(&selected), vec!["u1"]);
    assert_eq!(total, 10);
    let (selected, total) = ledger.select_inputs("nobody", 0).unwrap();
    assert!(selected.is_empty());
    assert_eq!(total, 0);
}

#[test]
fn settle_moves_value_and_returns_change() {
    let mut ledger = ledger_of(vec![coin("u-150", "A", 150)]);
    let tx = payment("A", "B", 40, &["u-150"], Some("chg"));
    assert_eq!(ledger.settle(&tx), Ok(()));
    assert_eq!(
        ledger.entries(),
        &vec![spent_coin("u-150", "A", 150), made("out", "B", 40), made("chg", "A", 110)]
    );
    assert_eq!(ledger.unspent_for("B"), vec![made("out", "B", 40)]);
    assert_eq!(ledger.unspent_for("A"), vec![made("chg", "A", 110)]);
    assert_eq!(ledger.balance_of("A"), 110);
    assert_eq!(ledger.balance_of("B"), 40);
}

#[test]
fn settle_without_change_makes_one_output() {
    let mut ledger = ledger_of(vec![coin("u1", "A", 25), coin("u2", "A", 15), coin("u3", "A", 9)]);
    let tx = payment("A", "B", 40, &["u1", "u2"], Some("unused"));
    assert_eq!(ledger.settle(&tx), Ok(()));
    assert_eq!(ledger.entries().len(), 4);
    assert_eq!(ledger.entries()[3], made("out", "B", 40));
    assert_eq!(ledger.balance_of("A"), 9);
    assert_eq!(ledger.balance_of("B"), 40);
    assert_eq!(ledger.position_of("unused"), None);
    let tx = payment("A", "C", 9, &["u3"], None);
    let mut tx = tx;
    tx.output_utxo = "out-2".to_string();
    assert_eq!(ledger.settle(&tx), Ok(()));
    assert_eq!(ledger.balance_of("A"), 0);
    assert_eq!(ledger.balance_of("C"), 9);
}

#[test]
fn settle_conserves_value() {
    let mut ledger = ledger_of(vec![
        coin("a1", "A", 70),
        coin("b1", "B", 5),
        coin("a2", "A", 50),
        coin("c1", "C", 11),
        spent_coin("a0", "A", 500),
    ]);
    let (a, b, c, total) =
        (ledger.balance_of("A"), ledger.balance_of("B"), ledger.balance_of("C"), ledger.unspent_total());
    let tx = payment("A", "B", 100, &["a1", "a2"], Some("chg"));
    assert_eq!(ledger.settle(&tx), Ok(()));
    assert_eq!(ledger.balance_of("A"), a - 100);
    assert_eq!(ledger.balance_of("B"), b + 100);
    assert_eq!(ledger.balance_of("C"), c);
    assert_eq!(ledger.unspent_total(), total);
    assert_eq!(ledger.balance_of("A"), 20);
}

#[test]
fn settle_to_oneself_keeps_the_balance() {
    let mut ledger = ledger_of(vec![coin("u1", "A", 30)]);
    let tx = payment("A", "A", 10, &["u1"], Some("chg"));
    assert_eq!(ledger.settle(&tx), Ok(()));
    assert_eq!(ledger.balance_of("A"), 30);
    assert_eq!(ledger.unspent_for("A"), vec![made("out", "A", 10), made("chg", "A", 20)]);
}

#[test]
fn settle_rejects_inputs_that_cannot_be_spent() {
    let start = vec![coin("u1", "A", 30), spent_coin("u2", "A", 30), coin("u3", "B", 30), coin("u4", "A", 30)];
    let cases: Vec<Vec<&str>> = vec![
        vec!["missing"],
        vec!["u2"],
        vec!["u3"],
        vec!["u1", "u1"],
        vec!["u1", "u4", "u1"],
        vec!["u1", "missing"],
    ];
    for inputs in cases {
        let mut ledger = ledger_of(start.clone());
        let tx = payment("A", "B", 10, &inputs, Some("chg"));
        assert_eq!(ledger.settle(&tx), Err(ApiError::SpendConflict));
        assert_eq!(ledger.entries(), &start);
    }
}

#[test]
fn settle_rejects_a_second_spend_of_the_same_output() {
    let mut ledger = ledger_of(vec![coin("u1", "A", 30)]);
    assert_eq!(ledger.settle(&payment("A", "B", 30, &["u1"], None)), Ok(()));
    let mut again = payment("A", "C", 30, &["u1"], None);
    again.output_utxo = "out-2".to_string();
    let before = ledger.entries().clone();
    assert_eq!(ledger.settle(&again), Err(ApiError::SpendConflict));
    assert_eq!(ledger.entries(), &before);
    assert_eq!(ledger.balance_of("C"), 0);
}

#[test]
fn settle_rejects_inputs_that_do_not_cover_the_amount() {
    let start = vec![coin("u1", "A", 30), coin("u2", "A", 5)];
    let mut ledger = ledger_of(start.clone());
    assert_eq!(
        ledger.settle(&payment("A", "B", 36, &["u1", "u2"], Some("chg"))),
        Err(ApiError::InsufficientBalance)
    );
    assert_eq!(ledger.settle(&payment("A", "B", 1, &[], None)), Err(ApiError::InsufficientBalance));
    assert_eq!(ledger.entries(), &start);
}

#[test]
fn settle_rejects_change_without_a_change_output() {
    let start = vec![coin("u1", "A", 30)];
    let mut ledger = ledger_of(start.clone());
    assert_eq!(ledger.settle(&payment("A", "B", 29, &["u1"], None)), Err(ApiError::InvalidAmount));
    assert_eq!(ledger.entries(), &start);
}

#[test]
fn settle_rejects_identifiers_in_use() {
    let start = vec![coin("u1", "A", 30), coin("out", "C", 1), coin("taken", "C", 1)];
    let mut ledger = ledger_of(start.clone());
    assert_eq!(ledger.settle(&payment("A", "B", 10, &["u1"], Some("chg"))), Err(ApiError::DuplicateUtxo));
    let mut tx = payment("A", "B", 10, &["u1"], Some("taken"));
    tx.output_utxo = "fresh".to_string();
    assert_eq!(ledger.settle(&tx), Err(ApiError::DuplicateUtxo));
    let mut tx = payment("A", "B", 10, &["u1"], Some("fresh"));
    tx.output_utxo = "fresh".to_string();
    assert_eq!(ledger.settle(&tx), Err(ApiError::DuplicateUtxo));
    let mut tx = payment("A", "B", 10, &["u1"], Some("u1"));
    tx.output_utxo = "fresh".to_string();
    assert_eq!(ledger.settle(&tx), Err(ApiError::DuplicateUtxo));
    assert_eq!(ledger.entries(), &start);
    let mut tx = payment("A", "B", 30, &["u1"], Some("taken"));
    tx.output_utxo = "fresh".to_string();
    assert_eq!(ledger.settle(&tx), Ok(()));
}

#[test]
fn settle_of_nothing_from_no_inputs_makes_an_empty_output() {
    let mut ledger = ledger_of(vec![coin("u1", "A", 30)]);
    assert_eq!(ledger.settle(&payment("A", "B", 0, &[], None)), Ok(()));
    assert_eq!(ledger.entries().len(), 2);
    assert_eq!(ledger.balance_of("A"), 30);
    assert_eq!(ledger.balance_of("B"), 0);
}

#[test]
fn text_lists() {
    let list = vec!["a".to_string(), "b".to_string(), "c".to_string()];
    assert!(contains_text(&list, "b"));
    assert!(!contains_text(&list, "d"));
    assert!(!contains_text(&Vec::new(), "a"));
    assert!(all_distinct(&list));
    assert!(all_distinct(&Vec::new()));
    assert!(!all_distinct(&vec!["a".to_string(), "b".to_string(), "a".to_string()]));
}

#[test]
fn settled_outputs_carry_the_block_hash_of_the_transaction() {
    let mut ledger = ledger_of(vec![coin("u1", "A", 30)]);
    let mut tx = payment("A", "B", 10, &["u1"], Some("chg"));
    tx.block_hash = Some("block-7".to_string());
    assert_eq!(ledger.settle(&tx), Ok(()));
    assert_eq!(ledger.entries()[1].block_hash, "block-7");
    assert_eq!(ledger.entries()[2].block_hash, "block-7");
    let mut other = payment("B", "A", 10, &["out"], None);
    other.output_utxo = "out-2".to_string();
    assert_eq!(ledger.settle(&other), Ok(()));
    assert_eq!(ledger.entries()[3].block_hash, "pending");
}
