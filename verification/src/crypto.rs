//! Hash primitives and the symmetric signature scheme built on them.

use sha2::{Digest, Sha256};
use vstd::prelude::*;
use vstd::string::*;
use vstd::utf8::*;

use crate::text::{decimal, decimal_text, joined, signed_decimal, signed_decimal_text};

verus! {

/// The SHA-256 digest of a message, as the `sha2` crate computes it.
pub uninterp spec fn sha256_digest(data: Seq<u8>) -> [u8; 32];

/// The sixteen lower-case hexadecimal digits, in order.
pub open spec fn hex_digits() -> Seq<char> {
    seq!['0', '1', '2', '3', '4', '5', '6', '7', '8', '9', 'a', 'b', 'c', 'd', 'e', 'f']
}

/// Lower-case hexadecimal text of a byte string: two digits per byte, the
/// high half first.
pub open spec fn hex_text(bytes: Seq<u8>) -> Seq<char> {
    Seq::new(
        2 * bytes.len(),
        |i: int|
            if i % 2 == 0 {
                hex_digits()[bytes[i / 2] as int / 16]
            } else {
                hex_digits()[bytes[i / 2] as int % 16]
            },
    )
}

/// The digest of a byte string, as hexadecimal text.
pub open spec fn digest_of_bytes(data: Seq<u8>) -> Seq<char> {
    hex_text(sha256_digest(data)@)
}

/// The digest of a text, taken over its UTF-8 bytes.
pub open spec fn digest_of_text(text: Seq<char>) -> Seq<char> {
    digest_of_bytes(encode_utf8(text))
}

/// The text that a transfer's signature is made over.
pub open spec fn signature_payload(
    sender: Seq<char>,
    recipient: Seq<char>,
    amount: nat,
    timestamp: int,
) -> Seq<char> {
    sender + recipient + decimal_text(amount) + signed_decimal_text(timestamp)
}

/// The signature of `data` under `key`: the digest of the data followed
/// by the key.
pub open spec fn signature_of(data: Seq<char>, key: Seq<char>) -> Seq<char> {
    digest_of_text(data + key)
}

/// Calls `sha2::Sha256::digest` (the one-shot form of the `Digest` trait).
/// Trusted: the 32 bytes returned are the SHA-256 digest of `data`, which
/// this library knows only by the name `sha256_digest`.
#[verifier::external_body]
fn sha256(data: &[u8]) -> (digest: [u8; 32])
    ensures
        digest == sha256_digest(data@),
{
    Sha256::digest(data).into()
}

/// Calls `hex::encode`.  Trusted: the result is the lower-case hexadecimal
/// text of `bytes`, two digits per byte with the high half first.
#[verifier::external_body]
fn hex_encode(bytes: &[u8]) -> (text: String)
    ensures
        text@ == hex_text(bytes@),
{
    hex::encode(bytes)
}

/// Calls `rand::thread_rng` and `Rng::gen` for one byte.  Trusted: nothing
/// is claimed of the byte.
#[verifier::external_body]
fn random_byte() -> u8 {
    rand::Rng::gen(&mut rand::thread_rng())
}

/// The SHA-256 digest of `data` as 64 hexadecimal characters.
pub fn hash_sha256(data: &[u8]) -> (digest: String)
    ensures
        digest@ == digest_of_bytes(data@),
        digest@.len() == 64,
{
    let raw = sha256(data);
    hex_encode(raw.as_slice())
}

/// The digest of a text's UTF-8 bytes.
pub fn hash_text(text: &str) -> (digest: String)
    ensures
        digest@ == digest_of_text(text@),
        digest@.len() == 64,
{
    hash_sha256(text.as_bytes())
}

/// Every digest is 64 characters long.
pub proof fn digest_has_64_characters(data: Seq<u8>)
    ensures
        digest_of_bytes(data).len() == 64,
{
}

/// The key pair that belongs to a secret: the secret in hexadecimal as the
/// private key, the digest of the secret as the public key.
pub fn keypair_from_secret(secret: &[u8]) -> (pair: (String, String))
    ensures
        pair.0@ == hex_text(secret@),
        pair.1@ == digest_of_bytes(secret@),
{
    (hex_encode(secret), hash_sha256(secret))
}

/// Draws a fresh secret of 32 bytes.
pub fn random_secret() -> (secret: Vec<u8>)
    ensures
        secret.len() == 32,
{
    let mut secret: Vec<u8> = Vec::new();
    while secret.len() < 32
        invariant
            secret.len() <= 32,
        decreases 32 - secret.len(),
    {
        secret.push(random_byte());
    }
    secret
}

/// Draws a fresh 32-byte secret and returns its key pair, private key first.
pub fn generate_keypair() -> (pair: (String, String))
    ensures
        exists|secret: Seq<u8>|
            secret.len() == 32 && pair.0@ == hex_text(secret) && pair.1@ == #[trigger] digest_of_bytes(
                secret,
            ),
{
    let secret = random_secret();
    let pair = keypair_from_secret(secret.as_slice());
    assert(pair.1@ == digest_of_bytes(secret@));
    pair
}

/// The wallet identifier of a public key: its digest.
pub fn generate_wallet_id(public_key: &str) -> (wallet_id: String)
    ensures
        wallet_id@ == digest_of_text(public_key@),
{
    hash_text(public_key)
}

/// Signs `data`: the digest of the data followed by the key.
pub fn sign_transaction(data: &str, private_key: &str) -> (signature: String)
    ensures
        signature@ == signature_of(data@, private_key@),
{
    let combined = joined(data, private_key);
    hash_text(combined.as_str())
}

/// Accepts `signature` exactly when it is the digest of the data followed
/// by `public_key`.
pub fn verify_signature(data: &str, signature: &str, public_key: &str) -> (valid: bool)
    ensures
        valid == (signature@ == signature_of(data@, public_key@)),
{
    let expected = sign_transaction(data, public_key);
    let given = String::from_str(signature);
    given == expected
}

/// Rebuilds a transfer's signature payload and checks `signature` against
/// it under `public_key`.
pub fn validate_transaction_signature(
    sender_wallet_id: &str,
    recipient_wallet_id: &str,
    amount: u64,
    timestamp: i64,
    signature: &str,
    public_key: &str,
) -> (valid: bool)
    ensures
        valid == (signature@ == signature_of(
            signature_payload(
                sender_wallet_id@,
                recipient_wallet_id@,
                amount as nat,
                timestamp as int,
            ),
            public_key@,
        )),
{
    let data = payload_text(sender_wallet_id, recipient_wallet_id, amount, timestamp);
    verify_signature(data.as_str(), signature, public_key)
}

/// Writes out the text that a transfer's signature is made over.
pub fn payload_text(
    sender_wallet_id: &str,
    recipient_wallet_id: &str,
    amount: u64,
    timestamp: i64,
) -> (data: String)
    ensures
        data@ == signature_payload(
            sender_wallet_id@,
            recipient_wallet_id@,
            amount as nat,
            timestamp as int,
        ),
{
    let mut data = joined(sender_wallet_id, recipient_wallet_id);
    data.append(decimal(amount).as_str());
    data.append(signed_decimal(timestamp).as_str());
    data
}

} // verus!
