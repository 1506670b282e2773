//! A single-node ledger engine: hash-linked blocks of value transfers, an
//! unspent-output ledger, proof-of-work mining, chain validation and a
//! balance levy.  Every executable function carries a contract that Verus
//! proves; the few calls into other crates are marked as trusted.

pub mod accounts;
pub mod blockchain;
pub mod canonical;
pub mod crypto;
pub mod encoding;
pub mod error;
pub mod ledger;
pub mod levy;
pub mod mining;
pub mod models;
pub mod text;
pub mod time;
pub mod transactions;
pub mod wallet;
