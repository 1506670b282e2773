//! The failures that the ledger reports.

use vstd::prelude::*;
use vstd::string::*;

verus! {

/// The checks that a block, or a chain's first block, can fail.
#[derive(Clone, Copy, Debug, PartialEq, Eq, Structural)]
pub enum IntegrityCheck {
    /// The first block of a chain is not a genesis block.
    Genesis,
    /// The block's hash lacks the difficulty prefix.
    DifficultyPrefix,
    /// The block does not name the expected predecessor.
    PreviousHash,
    /// The block's index is not one more than its predecessor's.
    Index,
    /// The stored Merkle root is not that of the block's transactions.
    MerkleRoot,
    /// The stored hash is not the hash of the block's contents.
    BlockHash,
}

/// A request that the ledger turned down, with the reason.
#[derive(Clone, Debug, PartialEq, Eq)]
pub enum ApiError {
    /// A transfer of nothing was asked for.
    InvalidAmount,
    /// A wallet named in the request belongs to no account.
    UnknownWallet,
    /// The sender's unspent outputs do not cover the amount.
    InsufficientBalance,
    /// A signature is not the one its payload and key give.
    SignatureMismatch,
    /// A block or chain failed the named check.
    ChainIntegrityFailure(IntegrityCheck),
    /// Mining was asked for with no pending transaction.
    NoPendingWork,
    /// The store behind the ledger failed; the text says how.
    PersistenceFailure(String),
    /// An input is not, or is no longer, an unspent output of the sender.
    SpendConflict,
    /// An output would take an identifier that the ledger already holds.
    DuplicateUtxo,
    /// A number would pass what 64 bits hold: the ledger's unspent value,
    /// or the index of a block.
    ValueOverflow,
    /// No 64-bit nonce gives the block a hash with the difficulty prefix.
    NonceExhausted,
}

impl IntegrityCheck {
    /// The check's name in words.
    pub open spec fn name_text(self) -> Seq<char> {
        match self {
            IntegrityCheck::Genesis => "genesis block"@,
            IntegrityCheck::DifficultyPrefix => "difficulty prefix"@,
            IntegrityCheck::PreviousHash => "previous hash"@,
            IntegrityCheck::Index => "index"@,
            IntegrityCheck::MerkleRoot => "merkle root"@,
            IntegrityCheck::BlockHash => "block hash"@,
        }
    }

    /// The check's name in words.
    pub fn name(self) -> (text: &'static str)
        ensures
            text@ == self.name_text(),
    {
        match self {
            IntegrityCheck::Genesis => "genesis block",
            IntegrityCheck::DifficultyPrefix => "difficulty prefix",
            IntegrityCheck::PreviousHash => "previous hash",
            IntegrityCheck::Index => "index",
            IntegrityCheck::MerkleRoot => "merkle root",
            IntegrityCheck::BlockHash => "block hash",
        }
    }
}

impl ApiError {
    /// The failure in words.
    pub open spec fn message_text(self) -> Seq<char> {
        match self {
            ApiError::InvalidAmount => "Invalid amount"@,
            ApiError::UnknownWallet => "Invalid wallet ID"@,
            ApiError::InsufficientBalance => "Insufficient balance"@,
            ApiError::SignatureMismatch => "Invalid signature"@,
            ApiError::ChainIntegrityFailure(check) => "Chain integrity failure: "@
                + check.name_text(),
            ApiError::NoPendingWork => "No pending transactions to mine"@,
            ApiError::PersistenceFailure(detail) => "Database error: "@ + detail@,
            ApiError::SpendConflict => "Spend conflict"@,
            ApiError::DuplicateUtxo => "Duplicate UTXO"@,
            ApiError::ValueOverflow => "Value overflow"@,
            ApiError::NonceExhausted => "No nonce meets the difficulty"@,
        }
    }

    /// The failure in words.
    pub fn message(&self) -> (text: String)
        ensures
            text@ == self.message_text(),
    {
        match self {
            ApiError::InvalidAmount => String::from_str("Invalid amount"),
            ApiError::UnknownWallet => String::from_str("Invalid wallet ID"),
            ApiError::InsufficientBalance => String::from_str("Insufficient balance"),
            ApiError::SignatureMismatch => String::from_str("Invalid signature"),
            ApiError::ChainIntegrityFailure(check) => {
                let mut text = String::from_str("Chain integrity failure: ");
                text.append(check.name());
                text
            },
            ApiError::NoPendingWork => String::from_str("No pending transactions to mine"),
            ApiError::PersistenceFailure(detail) => {
                let mut text = String::from_str("Database error: ");
                text.append(detail.as_str());
                text
            },
            ApiError::SpendConflict => String::from_str("Spend conflict"),
            ApiError::DuplicateUtxo => String::from_str("Duplicate UTXO"),
            ApiError::ValueOverflow => String::from_str("Value overflow"),
            ApiError::NonceExhausted => String::from_str("No nonce meets the difficulty"),
        }
    }
}

} // verus!
