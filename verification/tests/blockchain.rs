use ledger_core::blockchain::{validate_blockchain, Blockchain, ChainReport, DIFFICULTY_PREFIX};
use ledger_core::crypto::{hash_sha256, hash_text};
use ledger_core::encoding::{serialize_transaction, serialize_transactions};
use ledger_core::error::{ApiError, IntegrityCheck};
use ledger_core::models::{Block, Transaction, TransactionStatus};
use ledger_core::time::Timestamp;

const EMPTY_ROOT: &str = "e3b0c44298fc1c149afbf4c8996fb92427ae41e4649b934ca495991b7852b855";
const GENESIS_HASH: &str = "0000000000000000000000000000000000000000000000000000000000000000";
const SECOND: i64 = 1_000_000_000;

fn at(seconds: i64) -> Timestamp {
    Timestamp::from_nanos(seconds * SECOND)
}

fn tx_one() -> Transaction {
    Transaction {
        transaction_hash: "tx-one".to_string(),
        sender_wallet_id: "alice".to_string(),
        recipient_wallet_id: "bob".to_string(),
        amount: 40,
        note: None,
        timestamp: at(1_700_000_000),
        sender_public_key: "pk-a".to_string(),
        digital_signature: "sig-a".to_string(),
        input_utxos: vec!["u1".to_string()],
        output_utxo: "o1".to_string(),
        change_utxo: Some("c1".to_string()),
        status: TransactionStatus::Pending,
        block_hash: None,
    }
}

fn tx_two() -> Transaction {
    Transaction {
        transaction_hash: "tx-two".to_string(),
        sender_wallet_id: "bob".to_string(),
        recipient_wallet_id: "carol".to_string(),
        amount: 7,
        note: Some("say \"hi\"\n".to_string()),
        timestamp: at(1_700_000_100),
        sender_public_key: "pk-b".to_string(),
        digital_signature: "sig-b".to_string(),
        input_utxos: vec!["u2".to_string(), "u3".to_string()],
        output_utxo: "o2".to_string(),
        change_utxo: None,
        status: TransactionStatus::Pending,
        block_hash: None,
    }
}

fn tx_with_hash(hash: &str) -> Transaction {
    let mut tx = tx_one();
    tx.transaction_hash = hash.to_string();
    tx
}

fn mined_empty_block() -> Block {
    Blockchain::mine_block_at(1, Vec::new(), GENESIS_HASH.to_string(), 1, at(1_700_000_308))
        .expect("a nonce exists")
}

fn mined_full_block() -> Block {
    let previous = mined_empty_block().hash;
    Blockchain::mine_block_at(2, vec![tx_one(), tx_two()], previous, 1, at(1_700_001_015))
        .expect("a nonce exists")
}

#[test]
fn merkle_root_of_no_transactions_is_the_empty_digest() {
    assert_eq!(Blockchain::calculate_merkle_root(&[]), EMPTY_ROOT);
    assert_eq!(Blockchain::calculate_merkle_root(&[]), hash_sha256(b""));
}

#[test]
fn merkle_root_of_one_transaction_is_the_digest_of_its_hash() {
    assert_eq!(
        Blockchain::calculate_merkle_root(&[tx_one()]),
        "81bead00720f68c81db776cb728a19ae6eb1670b24f0343354c7d1c507ad336a"
    );
    assert_eq!(Blockchain::calculate_merkle_root(&[tx_one()]), hash_text("tx-one"));
}

#[test]
fn merkle_root_of_two_transactions_joins_left_before_right() {
    let root = Blockchain::calculate_merkle_root(&[tx_one(), tx_two()]);
    assert_eq!(root, "97605ad42851e7f23daa7d5b8361eb8bbd68d5b64c8bbe698bcb6dbd52d33732");
    let joined = format!("{}{}", hash_text("tx-one"), hash_text("tx-two"));
    assert_eq!(root, hash_text(&joined));
}

#[test]
fn merkle_root_of_three_repeats_the_last_digest() {
    let txs = [tx_with_hash("a"), tx_with_hash("b"), tx_with_hash("c")];
    let root = Blockchain::calculate_merkle_root(&txs);
    assert_eq!(root, "0bdf27bf7ec894ca7cadfe491ec1a3ece840f117989e8c5e9bd7086467bf6c38");
    let left = hash_text(&format!("{}{}", hash_text("a"), hash_text("b")));
    let right = hash_text(&format!("{}{}", hash_text("c"), hash_text("c")));
    assert_eq!(root, hash_text(&format!("{}{}", left, right)));
}

#[test]
fn merkle_root_does_not_tell_a_repeated_last_hash_apart() {
    let three = [tx_with_hash("a"), tx_with_hash("b"), tx_with_hash("c")];
    let four = [tx_with_hash("a"), tx_with_hash("b"), tx_with_hash("c"), tx_with_hash("c")];
    assert_eq!(
        Blockchain::calculate_merkle_root(&three),
        Blockchain::calculate_merkle_root(&four)
    );
}

#[test]
fn merkle_root_is_deterministic() {
    let txs = [tx_one(), tx_two(), tx_with_hash("third")];
    assert_eq!(Blockchain::calculate_merkle_root(&txs), Blockchain::calculate_merkle_root(&txs));
}

#[test]
fn merkle_root_depends_on_order_and_content() {
    let forward = Blockchain::calculate_merkle_root(&[tx_one(), tx_two()]);
    let backward = Blockchain::calculate_merkle_root(&[tx_two(), tx_one()]);
    assert_eq!(backward, "e0cf2b664817dd66076378f309ae000f06ed164fd453137898d3fa179045ce49");
    assert_ne!(forward, backward);
    let other = Blockchain::calculate_merkle_root(&[tx_one(), tx_with_hash("tx-2")]);
    assert_ne!(forward, other);
    assert_ne!(forward, Blockchain::calculate_merkle_root(&[tx_one()]));
}

#[test]
fn merkle_root_depends_only_on_the_transaction_hashes() {
    let mut changed = tx_one();
    changed.amount = 41;
    changed.note = Some("changed".to_string());
    assert_eq!(
        Blockchain::calculate_merkle_root(&[tx_one()]),
        Blockchain::calculate_merkle_root(&[changed])
    );
}

#[test]
fn transaction_text_has_every_field_in_order() {
    assert_eq!(
        serialize_transaction(&tx_one()),
        "{\"transaction_hash\":\"tx-one\",\"sender_wallet_id\":\"alice\",\
         \"recipient_wallet_id\":\"bob\",\"amount\":40,\"note\":null,\
         \"timestamp\":\"2023-11-14T22:13:20Z\",\"sender_public_key\":\"pk-a\",\
         \"digital_signature\":\"sig-a\",\"input_utxos\":[\"u1\"],\"output_utxo\":\"o1\",\
         \"change_utxo\":\"c1\",\"status\":\"pending\",\"block_hash\":null}"
    );
}

#[test]
fn transaction_text_escapes_strings() {
    assert_eq!(
        serialize_transaction(&tx_two()),
        "{\"transaction_hash\":\"tx-two\",\"sender_wallet_id\":\"bob\",\
         \"recipient_wallet_id\":\"carol\",\"amount\":7,\"note\":\"say \\\"hi\\\"\\n\",\
         \"timestamp\":\"2023-11-14T22:15:00Z\",\"sender_public_key\":\"pk-b\",\
         \"digital_signature\":\"sig-b\",\"input_utxos\":[\"u2\",\"u3\"],\"output_utxo\":\"o2\",\
         \"change_utxo\":null,\"status\":\"pending\",\"block_hash\":null}"
    );
}

#[test]
fn transaction_text_of_a_confirmed_transaction() {
    let mut tx = tx_one();
    tx.status = TransactionStatus::Confirmed;
    tx.block_hash = Some("abc".to_string());
    tx.input_utxos = Vec::new();
    let text = serialize_transaction(&tx);
    assert!(text.contains("\"input_utxos\":[],"));
    assert!(text.ends_with("\"status\":\"confirmed\",\"block_hash\":\"abc\"}"));
}

#[test]
fn transaction_list_text_is_an_array() {
    assert_eq!(serialize_transactions(&[]), "[]");
    assert_eq!(
        serialize_transactions(&[tx_one()]),
        format!("[{}]", serialize_transaction(&tx_one()))
    );
    assert_eq!(
        serialize_transactions(&[tx_one(), tx_two()]),
        format!("[{},{}]", serialize_transaction(&tx_one()), serialize_transaction(&tx_two()))
    );
}

#[test]
fn block_hash_is_the_digest_of_the_fields_in_order() {
    let block = Block {
        index: 3,
        timestamp: at(1_700_000_000),
        transactions: vec![tx_one()],
        previous_hash: "prev".to_string(),
        nonce: 17,
        hash: String::new(),
        merkle_root: "root".to_string(),
        difficulty: 2,
    };
    let preimage = format!(
        "{}{}{}{}{}{}{}",
        3,
        "2023-11-14 22:13:20 UTC",
        serialize_transactions(&[tx_one()]),
        "prev",
        17,
        "root",
        2
    );
    assert_eq!(Blockchain::calculate_block_hash(&block), hash_text(&preimage));
}

#[test]
fn block_hash_ignores_the_stored_hash() {
    let mut block = mined_empty_block();
    let hash = Blockchain::calculate_block_hash(&block);
    block.hash = "something else".to_string();
    assert_eq!(Blockchain::calculate_block_hash(&block), hash);
}

#[test]
fn block_hash_changes_with_every_field() {
    let block = mined_full_block();
    let hash = Blockchain::calculate_block_hash(&block);
    let mut other = block.clone();
    other.index += 1;
    assert_ne!(Blockchain::calculate_block_hash(&other), hash);
    let mut other = block.clone();
    other.timestamp = at(1_700_001_214);
    assert_ne!(Blockchain::calculate_block_hash(&other), hash);
    let mut other = block.clone();
    other.transactions[0].amount = 41;
    assert_ne!(Blockchain::calculate_block_hash(&other), hash);
    let mut other = block.clone();
    other.previous_hash.push('0');
    assert_ne!(Blockchain::calculate_block_hash(&other), hash);
    let mut other = block.clone();
    other.nonce += 1;
    assert_ne!(Blockchain::calculate_block_hash(&other), hash);
    let mut other = block.clone();
    other.merkle_root.push('0');
    assert_ne!(Blockchain::calculate_block_hash(&other), hash);
    let mut other = block.clone();
    other.difficulty += 1;
    assert_ne!(Blockchain::calculate_block_hash(&other), hash);
}

#[test]
fn mining_finds_the_first_nonce_with_the_prefix() {
    let block = mined_empty_block();
    assert_eq!(block.nonce, 1274);
    assert_eq!(block.hash, "000001d29f9440dbec93140aa8cf252064d7a965385bf66fbb775cf86a5aa481");
    assert_eq!(block.index, 1);
    assert_eq!(block.timestamp, at(1_700_000_308));
    assert!(block.transactions.is_empty());
    assert_eq!(block.previous_hash, GENESIS_HASH);
    assert_eq!(block.merkle_root, EMPTY_ROOT);
    assert_eq!(block.difficulty, 1);
    assert!(block.hash.starts_with(DIFFICULTY_PREFIX));
    for nonce in 0..block.nonce {
        let mut earlier = block.clone();
        earlier.nonce = nonce;
        assert!(!Blockchain::calculate_block_hash(&earlier).starts_with(DIFFICULTY_PREFIX));
    }
}

#[test]
fn mining_a_block_with_transactions() {
    let block = mined_full_block();
    assert_eq!(block.nonce, 1993);
    assert_eq!(block.hash, "00000e069ff2c4ab1de8e7fd2cea41712d566fef30492f8d2da6d25bd2952cfe");
    assert_eq!(block.merkle_root, "97605ad42851e7f23daa7d5b8361eb8bbd68d5b64c8bbe698bcb6dbd52d33732");
    assert_eq!(block.transactions, vec![tx_one(), tx_two()]);
    assert_eq!(block.hash, Blockchain::calculate_block_hash(&block));
}

#[test]
fn mining_is_reproducible_from_the_same_inputs() {
    assert_eq!(mined_empty_block(), mined_empty_block());
}

#[test]
fn mined_block_validates_at_once() {
    let block = mined_empty_block();
    assert!(Blockchain::validate_block(&block, GENESIS_HASH, 1));
    assert_eq!(Blockchain::check_block(&block, GENESIS_HASH), None);
    let next = mined_full_block();
    assert!(Blockchain::validate_block(&next, &block.hash, 1));
}

#[test]
fn validation_does_not_depend_on_the_expected_difficulty() {
    let block = mined_empty_block();
    assert!(Blockchain::validate_block(&block, GENESIS_HASH, 0));
    assert!(Blockchain::validate_block(&block, GENESIS_HASH, 5));
}

#[test]
fn changed_nonce_is_rejected() {
    let mut block = mined_full_block();
    let previous = block.previous_hash.clone();
    block.nonce += 1;
    assert!(!Blockchain::validate_block(&block, &previous, 1));
    assert_eq!(Blockchain::check_block(&block, &previous), Some(IntegrityCheck::BlockHash));
}

#[test]
fn changed_previous_hash_is_rejected() {
    let mut block = mined_full_block();
    let previous = block.previous_hash.clone();
    block.previous_hash = GENESIS_HASH.to_string();
    assert!(!Blockchain::validate_block(&block, &previous, 1));
    assert_eq!(Blockchain::check_block(&block, &previous), Some(IntegrityCheck::PreviousHash));
}

#[test]
fn changed_transaction_list_is_rejected() {
    let block = mined_full_block();
    let previous = block.previous_hash.clone();
    let mut dropped = block.clone();
    dropped.transactions.pop();
    assert!(!Blockchain::validate_block(&dropped, &previous, 1));
    assert_eq!(Blockchain::check_block(&dropped, &previous), Some(IntegrityCheck::MerkleRoot));
    let mut swapped = block.clone();
    swapped.transactions.swap(0, 1);
    assert_eq!(Blockchain::check_block(&swapped, &previous), Some(IntegrityCheck::MerkleRoot));
    let mut edited = block.clone();
    edited.transactions[0].amount = 4000;
    assert!(!Blockchain::validate_block(&edited, &previous, 1));
    assert_eq!(Blockchain::check_block(&edited, &previous), Some(IntegrityCheck::BlockHash));
}

#[test]
fn changed_header_fields_are_rejected() {
    let block = mined_full_block();
    let previous = block.previous_hash.clone();
    let mut other = block.clone();
    other.index = 7;
    assert_eq!(Blockchain::check_block(&other, &previous), Some(IntegrityCheck::BlockHash));
    let mut other = block.clone();
    other.timestamp = at(0);
    assert_eq!(Blockchain::check_block(&other, &previous), Some(IntegrityCheck::BlockHash));
    let mut other = block.clone();
    other.difficulty = 9;
    assert_eq!(Blockchain::check_block(&other, &previous), Some(IntegrityCheck::BlockHash));
    let mut other = block.clone();
    other.merkle_root = EMPTY_ROOT.to_string();
    assert_eq!(Blockchain::check_block(&other, &previous), Some(IntegrityCheck::MerkleRoot));
}

#[test]
fn hash_without_the_prefix_fails_the_first_check() {
    let mut block = mined_empty_block();
    block.hash = EMPTY_ROOT.to_string();
    assert_eq!(
        Blockchain::check_block(&block, "not the predecessor"),
        Some(IntegrityCheck::DifficultyPrefix)
    );
    block.hash = "0000".to_string();
    assert_eq!(
        Blockchain::check_block(&block, GENESIS_HASH),
        Some(IntegrityCheck::DifficultyPrefix)
    );
}

#[test]
fn forged_hash_with_the_prefix_fails_the_last_check() {
    let mut block = mined_empty_block();
    block.hash = "00000".to_string();
    assert_eq!(Blockchain::check_block(&block, GENESIS_HASH), Some(IntegrityCheck::BlockHash));
}

#[test]
fn genesis_block_scenario() {
    let genesis = Blockchain::genesis_block_at(at(1_700_000_000));
    assert_eq!(genesis.index, 0);
    assert_eq!(genesis.previous_hash, "0");
    assert!(genesis.transactions.is_empty());
    assert_eq!(genesis.merkle_root, EMPTY_ROOT);
    assert_eq!(genesis.merkle_root, Blockchain::calculate_merkle_root(&[]));
    assert_eq!(genesis.hash, GENESIS_HASH);
    assert_eq!(genesis.hash, "0".repeat(64));
    assert!(genesis.hash.starts_with(DIFFICULTY_PREFIX));
    assert_ne!(genesis.hash, Blockchain::calculate_block_hash(&genesis));
    assert_eq!(genesis.nonce, 0);
    assert_eq!(genesis.difficulty, 1);
    assert_eq!(genesis.timestamp, at(1_700_000_000));
    assert!(Blockchain::is_genesis(&genesis));
}

#[test]
fn genesis_block_created_now() {
    let genesis = Blockchain::create_genesis_block();
    assert!(Blockchain::is_genesis(&genesis));
    assert_eq!(genesis.hash, GENESIS_HASH);
    assert!(genesis.timestamp.seconds() > 1_577_836_800);
}

#[test]
fn a_block_that_is_no_genesis_block() {
    let genesis = Blockchain::genesis_block_at(at(0));
    let mut other = genesis.clone();
    other.index = 1;
    assert!(!Blockchain::is_genesis(&other));
    let mut other = genesis.clone();
    other.previous_hash = "00".to_string();
    assert!(!Blockchain::is_genesis(&other));
    let mut other = genesis.clone();
    other.transactions.push(tx_one());
    assert!(!Blockchain::is_genesis(&other));
    let mut other = genesis.clone();
    other.merkle_root = GENESIS_HASH.to_string();
    assert!(!Blockchain::is_genesis(&other));
    let mut other = genesis.clone();
    other.hash = EMPTY_ROOT.to_string();
    assert!(!Blockchain::is_genesis(&other));
    let mut other = genesis.clone();
    other.hash = "00000 assigned otherwise".to_string();
    assert!(Blockchain::is_genesis(&other));
    assert!(!Blockchain::is_genesis(&mined_empty_block()));
}

#[test]
fn empty_chain_is_valid() {
    assert_eq!(Blockchain::validate_chain(&[]), (true, None));
    assert_eq!(Blockchain::audit_chain(&[]), Ok(()));
}

#[test]
fn chain_of_genesis_and_mined_blocks_is_valid() {
    let chain = [Blockchain::genesis_block_at(at(1_700_000_000)), mined_empty_block(), mined_full_block()];
    assert_eq!(Blockchain::validate_chain(&chain), (true, None));
    assert_eq!(Blockchain::audit_chain(&chain), Ok(()));
    assert_eq!(Blockchain::validate_chain(&chain[..1]), (true, None));
}

#[test]
fn chain_with_a_broken_link_is_invalid_at_that_block() {
    let mut genesis = Blockchain::genesis_block_at(at(1_700_000_000));
    genesis.hash = "00000 a different genesis hash".to_string();
    let chain = [genesis, mined_empty_block()];
    assert_ne!(chain[1].previous_hash, chain[0].hash);
    assert_eq!(Blockchain::validate_chain(&chain), (false, Some(1)));
    assert_eq!(Blockchain::audit_chain(&chain), Err((1, IntegrityCheck::PreviousHash)));
}

#[test]
fn chain_reports_the_first_failing_block() {
    let mut second = mined_full_block();
    second.nonce += 1;
    let mut first = mined_empty_block();
    first.hash = format!("{}0", first.hash);
    let chain = [Blockchain::genesis_block_at(at(0)), first, second];
    assert_eq!(Blockchain::validate_chain(&chain), (false, Some(1)));
    assert_eq!(Blockchain::audit_chain(&chain), Err((1, IntegrityCheck::BlockHash)));
    let mut tampered = mined_full_block();
    tampered.transactions[1].amount = 8;
    let chain = [Blockchain::genesis_block_at(at(0)), mined_empty_block(), tampered];
    assert_eq!(Blockchain::validate_chain(&chain), (false, Some(2)));
    assert_eq!(Blockchain::audit_chain(&chain), Err((2, IntegrityCheck::BlockHash)));
}

#[test]
fn chain_that_does_not_begin_with_a_genesis_block_is_invalid() {
    let chain = [mined_empty_block(), mined_full_block()];
    assert_eq!(Blockchain::validate_chain(&chain), (false, Some(0)));
    assert_eq!(Blockchain::audit_chain(&chain), Err((0, IntegrityCheck::Genesis)));
    let mut unworked = Blockchain::genesis_block_at(at(0));
    unworked.hash = EMPTY_ROOT.to_string();
    assert_eq!(Blockchain::validate_chain(&[unworked]), (false, Some(0)));
}

#[test]
fn chain_report_in_words() {
    assert_eq!(
        validate_blockchain(&[]),
        ChainReport { valid: true, total_blocks: 0, error: String::new() }
    );
    let chain = [Blockchain::genesis_block_at(at(0)), mined_empty_block(), mined_full_block()];
    assert_eq!(
        validate_blockchain(&chain),
        ChainReport { valid: true, total_blocks: 3, error: String::new() }
    );
    let mut broken = chain.clone();
    broken[2].nonce += 1;
    assert_eq!(
        validate_blockchain(&broken),
        ChainReport { valid: false, total_blocks: 3, error: "Block 2 is invalid".to_string() }
    );
    assert_eq!(
        validate_blockchain(&chain[1..]),
        ChainReport { valid: false, total_blocks: 2, error: "Block 0 is invalid".to_string() }
    );
}

#[test]
fn chain_grows_by_blocks_that_may_follow() {
    let mut chain: Vec<Block> = Vec::new();
    assert_eq!(
        Blockchain::append_block(&mut chain, mined_empty_block()),
        Err(ApiError::ChainIntegrityFailure(IntegrityCheck::Genesis))
    );
    assert!(chain.is_empty());
    assert_eq!(Blockchain::append_block(&mut chain, Blockchain::genesis_block_at(at(0))), Ok(()));
    assert_eq!(
        Blockchain::append_block(&mut chain, mined_full_block()),
        Err(ApiError::ChainIntegrityFailure(IntegrityCheck::PreviousHash))
    );
    assert_eq!(Blockchain::append_block(&mut chain, mined_empty_block()), Ok(()));
    assert_eq!(Blockchain::append_block(&mut chain, mined_full_block()), Ok(()));
    assert_eq!(chain.len(), 3);
    assert_eq!(Blockchain::validate_chain(&chain), (true, None));
    assert_eq!(chain[2], mined_full_block());
    let mut tampered = mined_full_block();
    tampered.nonce += 1;
    assert_eq!(
        Blockchain::append_block(&mut chain, tampered),
        Err(ApiError::ChainIntegrityFailure(IntegrityCheck::PreviousHash))
    );
    assert_eq!(chain.len(), 3);
}

#[test]
fn block_with_the_wrong_index_may_not_follow() {
    let genesis = Blockchain::genesis_block_at(at(0));
    let first = mined_empty_block();
    assert_eq!(Blockchain::accept_block(Some(&genesis), &first), Ok(()));
    assert_eq!(Blockchain::accept_block(None, &genesis), Ok(()));
    assert_eq!(
        Blockchain::accept_block(None, &first),
        Err(ApiError::ChainIntegrityFailure(IntegrityCheck::Genesis))
    );
    let mut far_ahead = genesis.clone();
    far_ahead.index = 7;
    assert_eq!(
        Blockchain::accept_block(Some(&far_ahead), &first),
        Err(ApiError::ChainIntegrityFailure(IntegrityCheck::Index))
    );
    let mut last = genesis.clone();
    last.index = u64::MAX;
    assert_eq!(
        Blockchain::accept_block(Some(&last), &first),
        Err(ApiError::ChainIntegrityFailure(IntegrityCheck::Index))
    );
    let mut changed = first.clone();
    changed.transactions.push(tx_one());
    assert_eq!(
        Blockchain::accept_block(Some(&genesis), &changed),
        Err(ApiError::ChainIntegrityFailure(IntegrityCheck::MerkleRoot))
    );
    let mut unmined = first.clone();
    unmined.hash = EMPTY_ROOT.to_string();
    assert_eq!(
        Blockchain::accept_block(Some(&genesis), &unmined),
        Err(ApiError::ChainIntegrityFailure(IntegrityCheck::DifficultyPrefix))
    );
    assert_eq!(IntegrityCheck::Index.name(), "index");
    assert_eq!(IntegrityCheck::MerkleRoot.name(), "merkle root");
}

fn escaped(text: &str) -> String {
    let mut out = String::from("\"");
    for c in text.chars() {
        match c {
            '"' => out.push_str("\\\""),
            '\\' => out.push_str("\\\\"),
            '\u{8}' => out.push_str("\\b"),
            '\t' => out.push_str("\\t"),
            '\n' => out.push_str("\\n"),
            '\u{c}' => out.push_str("\\f"),
            '\r' => out.push_str("\\r"),
            c if (c as u32) < 0x20 => out.push_str(&format!("\\u00{:02x}", c as u32)),
            c => out.push(c),
        }
    }
    out.push('"');
    out
}

#[test]
fn every_character_is_escaped_as_json_asks() {
    let mut samples: Vec<String> = (0u32..=0x7f)
        .map(|code| char::from_u32(code).unwrap().to_string())
        .collect();
    samples.push("\u{7f}\u{80}\u{ff}é\u{2028}\u{fffd}\u{1f600}".to_string());
    samples.push("a\"b\\c\nd\u{1}e/f\\\"".to_string());
    samples.push(String::new());
    for sample in samples {
        let mut tx = tx_one();
        tx.note = Some(sample.clone());
        tx.output_utxo = sample.clone();
        let text = serialize_transaction(&tx);
        assert!(text.contains(&format!(",\"note\":{},\"timestamp\":", escaped(&sample))));
        assert!(text.contains(&format!(",\"output_utxo\":{},\"change_utxo\":", escaped(&sample))));
    }
    assert_eq!(escaped("\u{1b}"), "\"\\u001b\"");
    assert_eq!(escaped("\u{8}\u{c}"), "\"\\b\\f\"");
}

#[test]
fn canonical_text_tells_transaction_lists_apart() {
    let mut quoted = tx_one();
    quoted.sender_wallet_id = "alice\",\"recipient_wallet_id\":\"bob".to_string();
    quoted.recipient_wallet_id = "x".to_string();
    let mut split = tx_one();
    split.input_utxos = vec!["u1\",\"u2".to_string()];
    let mut joined = tx_one();
    joined.input_utxos = vec!["u1".to_string(), "u2".to_string()];
    let mut null_note = tx_one();
    null_note.note = Some("null".to_string());
    let mut amount = tx_one();
    amount.amount = 4;
    amount.note = Some("0".to_string());
    let mut later = tx_one();
    later.timestamp = Timestamp::from_nanos(1_700_000_000 * SECOND + 1);
    let mut confirmed = tx_one();
    confirmed.status = TransactionStatus::Confirmed;
    let mut in_block = tx_one();
    in_block.block_hash = Some(String::new());
    let singles = vec![
        tx_one(),
        tx_two(),
        quoted,
        split,
        joined,
        null_note,
        amount,
        later,
        confirmed,
        in_block,
    ];
    let mut lists: Vec<Vec<Transaction>> = vec![Vec::new()];
    for tx in &singles {
        lists.push(vec![tx.clone()]);
        lists.push(vec![tx.clone(), tx.clone()]);
    }
    lists.push(vec![tx_one(), tx_two()]);
    lists.push(vec![tx_two(), tx_one()]);
    lists.push(vec![tx_one(), tx_two(), tx_two()]);
    for (i, a) in lists.iter().enumerate() {
        for (j, b) in lists.iter().enumerate() {
            assert_eq!(i == j, serialize_transactions(a) == serialize_transactions(b));
        }
    }
}

#[test]
fn changed_transaction_list_is_rejected_whatever_the_change() {
    let block = mined_full_block();
    let previous = block.previous_hash.clone();
    let mut added = block.clone();
    added.transactions.push(tx_two());
    assert!(!Blockchain::validate_block(&added, &previous, 1));
    let mut emptied = block.clone();
    emptied.transactions.clear();
    assert!(!Blockchain::validate_block(&emptied, &previous, 1));
    let mut noted = block.clone();
    noted.transactions[0].note = Some(String::new());
    assert_eq!(Blockchain::check_block(&noted, &previous), Some(IntegrityCheck::BlockHash));
    let mut later = block.clone();
    later.transactions[1].timestamp = Timestamp::from_nanos(1_700_000_100 * SECOND + 1);
    assert_eq!(Blockchain::check_block(&later, &previous), Some(IntegrityCheck::BlockHash));
    let mut confirmed = block.clone();
    confirmed.transactions[1].status = TransactionStatus::Confirmed;
    assert_eq!(Blockchain::check_block(&confirmed, &previous), Some(IntegrityCheck::BlockHash));
}
