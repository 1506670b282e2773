//! The canonical text of a transaction list, as block hashes take it in.
//!
//! A list is written as a JSON array of objects, the fields of each
//! transaction in a fixed order and without white space.  Strings are
//! quoted and escaped as `serde_json` does it; amounts are decimal numerals; a
//! time is an RFC 3339 string; a missing value is `null`.

use vstd::prelude::*;
use vstd::string::*;

use crate::models::{
    Transaction, TransactionStatus, TransactionView, optional_text, texts, transaction_views,
};
use crate::crypto::hex_digits;
use crate::text::{decimal, decimal_text};
use crate::time::utc_rfc3339_text;

verus! {

/// What stands for one character inside a JSON string: a backslash and a
/// letter for the quote, the backslash and the five control characters
/// that have a letter, `\u00` and two hexadecimal digits for the other
/// characters below the space, and the character itself otherwise.
pub open spec fn json_escape(c: char) -> Seq<char> {
    if c == '"' {
        seq!['\\', '"']
    } else if c == '\\' {
        seq!['\\', '\\']
    } else if c == '\u{8}' {
        seq!['\\', 'b']
    } else if c == '\t' {
        seq!['\\', 't']
    } else if c == '\n' {
        seq!['\\', 'n']
    } else if c == '\u{c}' {
        seq!['\\', 'f']
    } else if c == '\r' {
        seq!['\\', 'r']
    } else if (c as u32) < 0x20 {
        seq![
            '\\',
            'u',
            '0',
            '0',
            hex_digits()[c as u32 as int / 16],
            hex_digits()[c as u32 as int % 16],
        ]
    } else {
        seq![c]
    }
}

/// A text with every character escaped as a JSON string asks for.
pub open spec fn json_escaped(s: Seq<char>) -> Seq<char>
    decreases s.len(),
{
    if s.len() == 0 {
        Seq::empty()
    } else {
        json_escaped(s.drop_last()) + json_escape(s.last())
    }
}

/// The JSON string literal of a text: the escaped text between double
/// quotes.
pub open spec fn json_string_text(s: Seq<char>) -> Seq<char> {
    seq!['"'] + json_escaped(s) + seq!['"']
}

/// Calls `serde_json::to_string` on a `str`, and gives the empty string
/// should it report an error, which it does for no `str`.  Trusted: the
/// result is the text between double quotes, each character escaped as
/// `json_escape` says.
#[verifier::external_body]
fn json_string(s: &str) -> (text: String)
    ensures
        text@ == json_string_text(s@),
{
    serde_json::to_string(s).unwrap_or_default()
}

/// The JSON text of an optional string.
pub open spec fn json_optional_text(s: Option<Seq<char>>) -> Seq<char> {
    match s {
        Some(t) => json_string_text(t),
        None => "null"@,
    }
}

/// The items in order, with a comma between neighbours.
pub open spec fn comma_separated(items: Seq<Seq<char>>) -> Seq<char>
    decreases items.len(),
{
    if items.len() == 0 {
        Seq::empty()
    } else if items.len() == 1 {
        items[0]
    } else {
        comma_separated(items.drop_last()) + ","@ + items.last()
    }
}

/// A JSON array of items that are JSON texts already.
pub open spec fn json_array_text(items: Seq<Seq<char>>) -> Seq<char> {
    "["@ + comma_separated(items) + "]"@
}

/// The JSON text of a transaction's status.
pub open spec fn status_text(status: TransactionStatus) -> Seq<char> {
    match status {
        TransactionStatus::Pending => "\"pending\""@,
        TransactionStatus::Confirmed => "\"confirmed\""@,
    }
}

/// The canonical text of one transaction.
pub open spec fn transaction_text(t: TransactionView) -> Seq<char> {
    "{\"transaction_hash\":"@ + json_string_text(t.transaction_hash)
        + ",\"sender_wallet_id\":"@ + json_string_text(t.sender_wallet_id)
        + ",\"recipient_wallet_id\":"@ + json_string_text(t.recipient_wallet_id)
        + ",\"amount\":"@ + decimal_text(t.amount)
        + ",\"note\":"@ + json_optional_text(t.note)
        + ",\"timestamp\":"@ + json_string_text(utc_rfc3339_text(t.timestamp.nanos as int))
        + ",\"sender_public_key\":"@ + json_string_text(t.sender_public_key)
        + ",\"digital_signature\":"@ + json_string_text(t.digital_signature)
        + ",\"input_utxos\":"@ + json_array_text(t.input_utxos.map_values(|s: Seq<char>| json_string_text(s)))
        + ",\"output_utxo\":"@ + json_string_text(t.output_utxo)
        + ",\"change_utxo\":"@ + json_optional_text(t.change_utxo)
        + ",\"status\":"@ + status_text(t.status)
        + ",\"block_hash\":"@ + json_optional_text(t.block_hash)
        + "}"@
}

/// The canonical text of a transaction list.
pub open spec fn transactions_text(transactions: Seq<TransactionView>) -> Seq<char> {
    json_array_text(transactions.map_values(|t: TransactionView| transaction_text(t)))
}

fn json_optional(s: &Option<String>) -> (text: String)
    ensures
        text@ == json_optional_text(optional_text(*s)),
{
    match s {
        Some(t) => json_string(t.as_str()),
        None => String::from_str("null"),
    }
}

fn json_array(items: &Vec<String>) -> (text: String)
    ensures
        text@ == json_array_text(texts(items@)),
{
    let ghost all = texts(items@);
    let mut text = String::from_str("[");
    let mut body = String::new();
    let mut i: usize = 0;
    while i < items.len()
        invariant
            i <= items.len(),
            all == texts(items@),
            body@ == comma_separated(all.take(i as int)),
        decreases items.len() - i,
    {
        if i > 0 {
            body.append(",");
        }
        body.append(items[i].as_str());
        proof {
            let next = all.take(i + 1);
            assert(next.drop_last() =~= all.take(i as int));
        }
        i += 1;
    }
    assert(all.take(items.len() as int) =~= all);
    text.append(body.as_str());
    text.append("]");
    text
}

fn json_strings(strings: &Vec<String>) -> (quoted: Vec<String>)
    ensures
        texts(quoted@) == texts(strings@).map_values(
            |s: Seq<char>| json_string_text(s),
        ),
{
    let mut quoted: Vec<String> = Vec::new();
    let mut i: usize = 0;
    while i < strings.len()
        invariant
            i <= strings.len(),
            quoted.len() == i,
            forall|j: int| 0 <= j < i ==> quoted[j]@ == json_string_text(strings[j]@),
        decreases strings.len() - i,
    {
        quoted.push(json_string(strings[i].as_str()));
        i += 1;
    }
    quoted
}

/// Writes the canonical text of one transaction.
pub fn serialize_transaction(t: &Transaction) -> (text: String)
    ensures
        text@ == transaction_text(t@),
{
    let mut text = String::from_str("{\"transaction_hash\":");
    text.append(json_string(t.transaction_hash.as_str()).as_str());
    text.append(",\"sender_wallet_id\":");
    text.append(json_string(t.sender_wallet_id.as_str()).as_str());
    text.append(",\"recipient_wallet_id\":");
    text.append(json_string(t.recipient_wallet_id.as_str()).as_str());
    text.append(",\"amount\":");
    text.append(decimal(t.amount).as_str());
    text.append(",\"note\":");
    text.append(json_optional(&t.note).as_str());
    text.append(",\"timestamp\":");
    text.append(json_string(t.timestamp.rfc3339().as_str()).as_str());
    text.append(",\"sender_public_key\":");
    text.append(json_string(t.sender_public_key.as_str()).as_str());
    text.append(",\"digital_signature\":");
    text.append(json_string(t.digital_signature.as_str()).as_str());
    text.append(",\"input_utxos\":");
    text.append(json_array(&json_strings(&t.input_utxos)).as_str());
    text.append(",\"output_utxo\":");
    text.append(json_string(t.output_utxo.as_str()).as_str());
    text.append(",\"change_utxo\":");
    text.append(json_optional(&t.change_utxo).as_str());
    text.append(",\"status\":");
    match t.status {
        TransactionStatus::Pending => text.append("\"pending\""),
        TransactionStatus::Confirmed => text.append("\"confirmed\""),
    }
    text.append(",\"block_hash\":");
    text.append(json_optional(&t.block_hash).as_str());
    text.append("}");
    text
}

/// Writes the canonical text of a transaction list.
pub fn serialize_transactions(transactions: &[Transaction]) -> (text: String)
    ensures
        text@ == transactions_text(transaction_views(transactions@)),
{
    let mut items: Vec<String> = Vec::new();
    let mut i: usize = 0;
    while i < transactions.len()
        invariant
            i <= transactions.len(),
            items.len() == i,
            forall|j: int| 0 <= j < i ==> items[j]@ == transaction_text(transactions[j]@),
        decreases transactions.len() - i,
    {
        items.push(serialize_transaction(&transactions[i]));
        i += 1;
    }
    assert(texts(items@) =~= transaction_views(transactions@).map_values(
        |t: TransactionView| transaction_text(t),
    ));
    json_array(&items)
}

} // verus!
