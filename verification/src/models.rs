//! The ledger's records and their mathematical views.
//!
//! Each record has a view in which every text is a sequence of characters
//! and every amount a natural number; the contracts of the library speak of
//! these views.

use vstd::prelude::*;

use crate::time::Timestamp;

verus! {

/// The views of a sequence of strings.
pub open spec fn texts(strings: Seq<String>) -> Seq<Seq<char>> {
    strings.map_values(|s: String| s@)
}

/// The view of an optional string.
pub open spec fn optional_text(s: Option<String>) -> Option<Seq<char>> {
    match s {
        Some(t) => Some(t@),
        None => None,
    }
}

/// Whether an output can still be spent.
#[derive(Clone, Copy, Debug, PartialEq, Eq, Structural)]
pub enum UtxoStatus {
    Unspent,
    Spent,
}

/// Whether a transaction has been included in a block.
#[derive(Clone, Copy, Debug, PartialEq, Eq, Structural)]
pub enum TransactionStatus {
    Pending,
    Confirmed,
}

/// An unspent transaction output: a fragment of value owned by one wallet.
#[derive(Debug, PartialEq, Eq)]
pub struct UTXO {
    pub utxo_id: String,
    pub wallet_id: String,
    pub amount: u64,
    pub status: UtxoStatus,
    pub block_hash: String,
    pub transaction_hash: String,
    pub created_at: Timestamp,
}

/// The view of a [`UTXO`].
pub struct UtxoView {
    pub utxo_id: Seq<char>,
    pub wallet_id: Seq<char>,
    pub amount: nat,
    pub status: UtxoStatus,
    pub block_hash: Seq<char>,
    pub transaction_hash: Seq<char>,
    pub created_at: Timestamp,
}

impl View for UTXO {
    type V = UtxoView;

    open spec fn view(&self) -> UtxoView {
        UtxoView {
            utxo_id: self.utxo_id@,
            wallet_id: self.wallet_id@,
            amount: self.amount as nat,
            status: self.status,
            block_hash: self.block_hash@,
            transaction_hash: self.transaction_hash@,
            created_at: self.created_at,
        }
    }
}

impl Clone for UTXO {
    fn clone(&self) -> (copy: Self)
        ensures
            copy@ == self@,
    {
        UTXO {
            utxo_id: self.utxo_id.clone(),
            wallet_id: self.wallet_id.clone(),
            amount: self.amount,
            status: self.status,
            block_hash: self.block_hash.clone(),
            transaction_hash: self.transaction_hash.clone(),
            created_at: self.created_at,
        }
    }
}

/// A transfer of value from one wallet to another.
#[derive(Debug, PartialEq, Eq)]
pub struct Transaction {
    pub transaction_hash: String,
    pub sender_wallet_id: String,
    pub recipient_wallet_id: String,
    pub amount: u64,
    pub note: Option<String>,
    pub timestamp: Timestamp,
    pub sender_public_key: String,
    pub digital_signature: String,
    pub input_utxos: Vec<String>,
    pub output_utxo: String,
    pub change_utxo: Option<String>,
    pub status: TransactionStatus,
    pub block_hash: Option<String>,
}

/// The view of a [`Transaction`].
pub struct TransactionView {
    pub transaction_hash: Seq<char>,
    pub sender_wallet_id: Seq<char>,
    pub recipient_wallet_id: Seq<char>,
    pub amount: nat,
    pub note: Option<Seq<char>>,
    pub timestamp: Timestamp,
    pub sender_public_key: Seq<char>,
    pub digital_signature: Seq<char>,
    pub input_utxos: Seq<Seq<char>>,
    pub output_utxo: Seq<char>,
    pub change_utxo: Option<Seq<char>>,
    pub status: TransactionStatus,
    pub block_hash: Option<Seq<char>>,
}

impl View for Transaction {
    type V = TransactionView;

    open spec fn view(&self) -> TransactionView {
        TransactionView {
            transaction_hash: self.transaction_hash@,
            sender_wallet_id: self.sender_wallet_id@,
            recipient_wallet_id: self.recipient_wallet_id@,
            amount: self.amount as nat,
            note: optional_text(self.note),
            timestamp: self.timestamp,
            sender_public_key: self.sender_public_key@,
            digital_signature: self.digital_signature@,
            input_utxos: texts(self.input_utxos@),
            output_utxo: self.output_utxo@,
            change_utxo: optional_text(self.change_utxo),
            status: self.status,
            block_hash: optional_text(self.block_hash),
        }
    }
}

/// Copies a list of strings.
pub fn clone_strings(strings: &Vec<String>) -> (copy: Vec<String>)
    ensures
        texts(copy@) == texts(strings@),
{
    let mut copy: Vec<String> = Vec::new();
    let mut i: usize = 0;
    while i < strings.len()
        invariant
            i <= strings.len(),
            copy.len() == i,
            forall|j: int| 0 <= j < i ==> copy[j]@ == strings[j]@,
        decreases strings.len() - i,
    {
        copy.push(strings[i].clone());
        i += 1;
    }
    copy
}

/// Copies an optional string.
pub fn clone_optional(s: &Option<String>) -> (copy: Option<String>)
    ensures
        optional_text(copy) == optional_text(*s),
{
    match s {
        Some(t) => Some(t.clone()),
        None => None,
    }
}

impl Clone for Transaction {
    fn clone(&self) -> (copy: Self)
        ensures
            copy@ == self@,
    {
        Transaction {
            transaction_hash: self.transaction_hash.clone(),
            sender_wallet_id: self.sender_wallet_id.clone(),
            recipient_wallet_id: self.recipient_wallet_id.clone(),
            amount: self.amount,
            note: clone_optional(&self.note),
            timestamp: self.timestamp,
            sender_public_key: self.sender_public_key.clone(),
            digital_signature: self.digital_signature.clone(),
            input_utxos: clone_strings(&self.input_utxos),
            output_utxo: self.output_utxo.clone(),
            change_utxo: clone_optional(&self.change_utxo),
            status: self.status,
            block_hash: clone_optional(&self.block_hash),
        }
    }
}

/// The views of a sequence of transactions.
pub open spec fn transaction_views(transactions: Seq<Transaction>) -> Seq<TransactionView> {
    transactions.map_values(|t: Transaction| t@)
}

/// Copies a list of transactions.
pub fn clone_transactions(transactions: &[Transaction]) -> (copy: Vec<Transaction>)
    ensures
        transaction_views(copy@) == transaction_views(transactions@),
{
    let mut copy: Vec<Transaction> = Vec::new();
    let mut i: usize = 0;
    while i < transactions.len()
        invariant
            i <= transactions.len(),
            copy.len() == i,
            forall|j: int| 0 <= j < i ==> copy[j]@ == transactions[j]@,
        decreases transactions.len() - i,
    {
        copy.push(transactions[i].clone());
        i += 1;
    }
    copy
}

/// One link of the chain.
#[derive(Debug, PartialEq, Eq)]
pub struct Block {
    pub index: u64,
    pub timestamp: Timestamp,
    pub transactions: Vec<Transaction>,
    pub previous_hash: String,
    pub nonce: u64,
    pub hash: String,
    pub merkle_root: String,
    pub difficulty: u32,
}

/// The view of a [`Block`].
pub struct BlockView {
    pub index: nat,
    pub timestamp: Timestamp,
    pub transactions: Seq<TransactionView>,
    pub previous_hash: Seq<char>,
    pub nonce: nat,
    pub hash: Seq<char>,
    pub merkle_root: Seq<char>,
    pub difficulty: nat,
}

impl View for Block {
    type V = BlockView;

    open spec fn view(&self) -> BlockView {
        BlockView {
            index: self.index as nat,
            timestamp: self.timestamp,
            transactions: transaction_views(self.transactions@),
            previous_hash: self.previous_hash@,
            nonce: self.nonce as nat,
            hash: self.hash@,
            merkle_root: self.merkle_root@,
            difficulty: self.difficulty as nat,
        }
    }
}

impl Clone for Block {
    fn clone(&self) -> (copy: Self)
        ensures
            copy@ == self@,
    {
        Block {
            index: self.index,
            timestamp: self.timestamp,
            transactions: clone_transactions(self.transactions.as_slice()),
            previous_hash: self.previous_hash.clone(),
            nonce: self.nonce,
            hash: self.hash.clone(),
            merkle_root: self.merkle_root.clone(),
            difficulty: self.difficulty,
        }
    }
}

/// The views of a sequence of blocks.
pub open spec fn block_views(blocks: Seq<Block>) -> Seq<BlockView> {
    blocks.map_values(|b: Block| b@)
}

/// An account: the wallet it owns, its key material and its levy total.
#[derive(Clone, Debug, PartialEq, Eq)]
pub struct User {
    pub email: String,
    pub full_name: String,
    pub cnic: String,
    pub password_hash: String,
    pub wallet_id: String,
    pub public_key: String,
    pub private_key_encrypted: String,
    pub created_at: Timestamp,
    pub beneficiaries: Vec<String>,
    pub zakat_deduction: u64,
}

/// What a new account states of its holder.
#[derive(Clone, Debug, PartialEq, Eq)]
pub struct RegisterRequest {
    pub full_name: String,
    pub email: String,
    pub password: String,
    pub cnic: String,
}

/// A request to sign in.
#[derive(Clone, Debug, PartialEq, Eq)]
pub struct LoginRequest {
    pub email: String,
    pub password: String,
}

/// A one-time passcode offered for an account.
#[derive(Clone, Debug, PartialEq, Eq)]
pub struct VerifyOtpRequest {
    pub email: String,
    pub otp: String,
}

/// What an account shows of itself.
#[derive(Clone, Debug, PartialEq, Eq)]
pub struct UserResponse {
    pub email: String,
    pub full_name: String,
    pub wallet_id: String,
    pub public_key: String,
}

/// What a holder gets on signing in: a token and the account's public face.
#[derive(Clone, Debug, PartialEq, Eq)]
pub struct AuthResponse {
    pub token: String,
    pub user: UserResponse,
}

/// A request to move `amount` from one wallet to another.
#[derive(Clone, Debug, PartialEq, Eq)]
pub struct SendMoneyRequest {
    pub sender_wallet_id: String,
    pub recipient_wallet_id: String,
    pub amount: u64,
    pub note: Option<String>,
}

/// What a caller learns of a transaction that was accepted.
#[derive(Clone, Debug, PartialEq, Eq)]
pub struct TransactionResponse {
    pub transaction_hash: String,
    pub status: TransactionStatus,
}

/// One unspent output, as a balance report lists it.
#[derive(Clone, Debug, PartialEq, Eq)]
pub struct UtxoResponse {
    pub id: String,
    pub amount: u64,
    pub status: UtxoStatus,
    pub block_hash: String,
}

/// A wallet's balance with the outputs that make it up.
#[derive(Clone, Debug, PartialEq, Eq)]
pub struct BalanceResponse {
    pub balance: u64,
    pub utxos: Vec<UtxoResponse>,
    pub zakat_deduction: u64,
}

} // verus!
