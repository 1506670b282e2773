use ledger_core::blockchain::Blockchain;
use ledger_core::error::ApiError;
use ledger_core::mining::{
    mine_block, mine_on, mine_on_between, mine_pending_at, mine_pending_between,
    mine_pending_transactions, pending_transactions,
};
use ledger_core::models::{Block, Transaction, TransactionStatus};
use ledger_core::time::Timestamp;

const GENESIS_HASH: &str = "0000000000000000000000000000000000000000000000000000000000000000";
const SECOND: i64 = 1_000_000_000;

fn at(seconds: i64) -> Timestamp {
    Timestamp::from_nanos(seconds * SECOND)
}

fn tx_one() -> Transaction {
    Transaction {
        transaction_hash: "tx-one".to_string(),
        sender_wallet_id: "alice".to_string(),
        recipient_wallet_id: "bob".to_string(),
        amount: 40,
        note: None,
        timestamp: at(1_700_000_000),
        sender_public_key: "pk-a".to_string(),
        digital_signature: "sig-a".to_string(),
        input_utxos: vec!["u1".to_string()],
        output_utxo: "o1".to_string(),
        change_utxo: Some("c1".to_string()),
        status: TransactionStatus::Pending,
        block_hash: None,
    }
}

fn tx_two() -> Transaction {
    Transaction {
        transaction_hash: "tx-two".to_string(),
        sender_wallet_id: "bob".to_string(),
        recipient_wallet_id: "carol".to_string(),
        amount: 7,
        note: Some("say \"hi\"\n".to_string()),
        timestamp: at(1_700_000_100),
        sender_public_key: "pk-b".to_string(),
        digital_signature: "sig-b".to_string(),
        input_utxos: vec!["u2".to_string(), "u3".to_string()],
        output_utxo: "o2".to_string(),
        change_utxo: None,
        status: TransactionStatus::Pending,
        block_hash: None,
    }
}

fn confirmed(mut tx: Transaction, block_hash: &str) -> Transaction {
    tx.status = TransactionStatus::Confirmed;
    tx.block_hash = Some(block_hash.to_string());
    tx
}

fn tip(index: u64) -> Block {
    Block {
        index,
        timestamp: at(5),
        transactions: Vec::new(),
        previous_hash: "before".to_string(),
        nonce: 3,
        hash: "tip-hash".to_string(),
        merkle_root: "root".to_string(),
        difficulty: 3,
    }
}

#[test]
fn pending_transactions_are_mined_on_the_genesis_block() {
    let mut transactions = vec![tx_one(), tx_two()];
    let block = mine_pending_at(None, &mut transactions, at(1_700_002_238)).unwrap();
    assert_eq!(block.index, 1);
    assert_eq!(block.previous_hash, GENESIS_HASH);
    assert_eq!(block.difficulty, 1);
    assert_eq!(block.nonce, 2585);
    assert_eq!(block.hash, "00000e6288c21c1641b18cd6b4e5ebf9af7279a4653616ce1d9b2aa33f0de7e2");
    assert_eq!(block.merkle_root, "97605ad42851e7f23daa7d5b8361eb8bbd68d5b64c8bbe698bcb6dbd52d33732");
    assert_eq!(block.transactions, vec![tx_one(), tx_two()]);
    assert_eq!(
        transactions,
        vec![confirmed(tx_one(), &block.hash), confirmed(tx_two(), &block.hash)]
    );
    assert!(Blockchain::validate_block(&block, GENESIS_HASH, 1));
    let chain = [Blockchain::genesis_block_at(at(0)), block];
    assert_eq!(Blockchain::validate_chain(&chain), (true, None));
}

#[test]
fn only_pending_transactions_are_mined_and_confirmed() {
    let earlier = confirmed(tx_one(), "an earlier block");
    let mut transactions = vec![earlier.clone(), tx_two()];
    let latest = tip(41);
    let block = mine_pending_at(Some(&latest), &mut transactions, at(1_700_003_068)).unwrap();
    assert_eq!(block.index, 42);
    assert_eq!(block.previous_hash, "tip-hash");
    assert_eq!(block.difficulty, 3);
    assert_eq!(block.nonce, 2777);
    assert_eq!(block.hash, "000002ad398ffa916f475dadd8e351e1be9689f40030acb5968c36a5e363bf3f");
    assert_eq!(block.transactions, vec![tx_two()]);
    assert_eq!(transactions, vec![earlier, confirmed(tx_two(), &block.hash)]);
    assert!(Blockchain::validate_block(&block, "tip-hash", 3));
}

#[test]
fn mining_with_nothing_pending_is_refused() {
    let mut none: Vec<Transaction> = Vec::new();
    assert_eq!(mine_pending_at(None, &mut none, at(1)), Err(ApiError::NoPendingWork));
    let start = vec![confirmed(tx_one(), "b1"), confirmed(tx_two(), "b1")];
    let mut transactions = start.clone();
    assert_eq!(mine_pending_at(Some(&tip(3)), &mut transactions, at(1)), Err(ApiError::NoPendingWork));
    assert_eq!(transactions, start);
}

#[test]
fn mining_past_the_last_index_is_refused() {
    let start = vec![tx_one()];
    let mut transactions = start.clone();
    assert_eq!(
        mine_pending_at(Some(&tip(u64::MAX)), &mut transactions, at(1)),
        Err(ApiError::ValueOverflow)
    );
    assert_eq!(transactions, start);
    assert_eq!(mine_on(Some(&tip(u64::MAX)), Vec::new(), at(1)), Err(ApiError::ValueOverflow));
}

#[test]
fn empty_block_is_mined_on_the_tip() {
    let block = mine_on(None, Vec::new(), at(1_700_000_308)).unwrap();
    assert_eq!(block.index, 1);
    assert_eq!(block.nonce, 1274);
    assert_eq!(block.hash, "000001d29f9440dbec93140aa8cf252064d7a965385bf66fbb775cf86a5aa481");
    assert_eq!(
        Some(block),
        Blockchain::mine_block_at(1, Vec::new(), GENESIS_HASH.to_string(), 1, at(1_700_000_308))
    );
}

#[test]
fn pending_transactions_are_picked_in_order() {
    let list = vec![tx_two(), confirmed(tx_one(), "b"), tx_one()];
    assert_eq!(pending_transactions(&list), vec![tx_two(), tx_one()]);
    assert!(pending_transactions(&Vec::new()).is_empty());
}

#[test]
fn search_can_be_run_range_by_range() {
    let found = |first: u64, last: u64| {
        Blockchain::mine_block_between(1, &[], GENESIS_HASH, 1, at(1_700_000_308), first, last)
    };
    assert_eq!(found(0, 999), None);
    assert_eq!(found(1000, 1273), None);
    assert_eq!(found(5, 4), None);
    let block = found(1000, 1999).unwrap();
    assert_eq!(block.nonce, 1274);
    assert_eq!(found(1274, 1274), Some(block.clone()));
    assert_eq!(found(0, u64::MAX), Some(block.clone()));
    assert_eq!(
        Some(block),
        Blockchain::mine_block_at(1, Vec::new(), GENESIS_HASH.to_string(), 1, at(1_700_000_308))
    );
    let later = found(1275, 1275 + 3_000_000).unwrap();
    assert!(later.nonce > 1274);
    assert!(later.hash.starts_with("00000"));
    assert!(Blockchain::validate_block(&later, GENESIS_HASH, 1));
}

#[test]
fn search_on_the_tip_range_by_range() {
    assert_eq!(mine_on_between(None, &[], at(1_700_000_308), 0, 1273), Ok(None));
    let block = mine_on_between(None, &[], at(1_700_000_308), 1000, 2000).unwrap().unwrap();
    assert_eq!(block.nonce, 1274);
    assert_eq!(block.index, 1);
    assert_eq!(
        mine_on_between(Some(&tip(u64::MAX)), &[], at(1), 0, 10),
        Err(ApiError::ValueOverflow)
    );
}

#[test]
fn pending_transactions_stay_pending_until_a_nonce_is_found() {
    let start = vec![tx_one(), tx_two()];
    let mut transactions = start.clone();
    assert_eq!(mine_pending_between(None, &mut transactions, at(1_700_002_238), 0, 2584), Ok(None));
    assert_eq!(transactions, start);
    let block = mine_pending_between(None, &mut transactions, at(1_700_002_238), 2585, 2585)
        .unwrap()
        .unwrap();
    assert_eq!(block.nonce, 2585);
    assert_eq!(block.transactions, start);
    assert_eq!(
        transactions,
        vec![confirmed(tx_one(), &block.hash), confirmed(tx_two(), &block.hash)]
    );
    assert_eq!(
        mine_pending_between(None, &mut transactions, at(1_700_002_238), 0, 10),
        Err(ApiError::NoPendingWork)
    );
}

#[test]
fn mining_now_is_refused_without_work_or_beyond_the_last_index() {
    let mut none: Vec<Transaction> = Vec::new();
    assert_eq!(mine_pending_transactions(None, &mut none), Err(ApiError::NoPendingWork));
    let mut transactions = vec![tx_one()];
    assert_eq!(
        mine_pending_transactions(Some(&tip(u64::MAX)), &mut transactions),
        Err(ApiError::ValueOverflow)
    );
    assert_eq!(transactions, vec![tx_one()]);
    assert_eq!(mine_block(Some(&tip(u64::MAX))), Err(ApiError::ValueOverflow));
}
