use ledger_core::crypto::{
    generate_keypair, generate_wallet_id, hash_sha256, hash_text, keypair_from_secret,
    payload_text, sign_transaction, validate_transaction_signature, verify_signature,
};
use ledger_core::text::{decimal, joined, same_text, signed_decimal, starts_with};
use ledger_core::time::Timestamp;

const EMPTY_DIGEST: &str = "e3b0c44298fc1c149afbf4c8996fb92427ae41e4649b934ca495991b7852b855";

#[test]
fn sha256_of_empty_input_is_the_known_digest() {
    assert_eq!(hash_sha256(b""), EMPTY_DIGEST);
}

#[test]
fn sha256_of_known_messages() {
    assert_eq!(
        hash_sha256(b"hello world"),
        "b94d27b9934d3e08a52e52d7da7dabfac484efe37a5380ee9088f7ace2efcde9"
    );
    assert_eq!(
        hash_text("abc"),
        "ba7816bf8f01cfea414140de5dae2223b00361a396177a9cb410ff61f20015ad"
    );
}

#[test]
fn digest_is_sixty_four_lower_case_hex_digits() {
    let digest = hash_sha256(b"any input at all");
    assert_eq!(digest.len(), 64);
    assert!(digest.chars().all(|c| c.is_ascii_digit() || ('a'..='f').contains(&c)));
}

#[test]
fn digest_differs_from_its_input() {
    assert_ne!(hash_text("abc"), "abc");
    assert_ne!(hash_text("abc"), hash_text("abd"));
}

#[test]
fn keypair_from_secret_is_hex_and_digest() {
    let (private_key, public_key) = keypair_from_secret(&[0, 1, 2, 15, 16, 171, 255]);
    assert_eq!(private_key, "0001020f10abff");
    assert_eq!(public_key, hash_sha256(&[0, 1, 2, 15, 16, 171, 255]));
    let (_, public_key) = keypair_from_secret(&[1, 2, 3]);
    assert_eq!(
        public_key,
        "039058c6f2c0cb492c533b0a4d14ef77cc0f78abccced5287d84a1a2011cfb81"
    );
}

#[test]
fn keypair_of_nothing() {
    let (private_key, public_key) = keypair_from_secret(&[]);
    assert_eq!(private_key, "");
    assert_eq!(public_key, EMPTY_DIGEST);
}

#[test]
fn generated_keypair_has_the_right_shape() {
    let (private_key, public_key) = generate_keypair();
    assert_eq!(private_key.len(), 64);
    assert_eq!(public_key.len(), 64);
    let secret: Vec<u8> = (0..32)
        .map(|i| u8::from_str_radix(&private_key[2 * i..2 * i + 2], 16).unwrap())
        .collect();
    assert_eq!(public_key, hash_sha256(&secret));
}

#[test]
fn generated_keypairs_differ() {
    let (a, _) = generate_keypair();
    let (b, _) = generate_keypair();
    assert_ne!(a, b);
}

#[test]
fn wallet_id_is_the_digest_of_the_public_key() {
    assert_eq!(
        generate_wallet_id("pk"),
        "eb3102a6cb586765d01fad324523ec0bc67b9efd6a2d9589c135adfedf7922cc"
    );
}

#[test]
fn signature_is_the_digest_of_data_and_key() {
    assert_eq!(
        sign_transaction("data", "key"),
        "b2b310b26f63aa00b3479ab78f404f46762362d9ddf7df4c1c79f6def2ef944b"
    );
    assert_eq!(sign_transaction("data", "key"), hash_text("datakey"));
}

#[test]
fn signature_verifies_under_the_key_that_made_it() {
    let signature = sign_transaction("some payload", "shared-key");
    assert!(verify_signature("some payload", &signature, "shared-key"));
}

#[test]
fn signature_fails_under_another_key_or_payload() {
    let signature = sign_transaction("some payload", "shared-key");
    assert!(!verify_signature("some payload", &signature, "other-key"));
    assert!(!verify_signature("other payload", &signature, "shared-key"));
    assert!(!verify_signature("some payload", "", "shared-key"));
}

#[test]
fn payload_is_sender_recipient_amount_seconds() {
    assert_eq!(payload_text("A", "B", 40, 1700000000), "AB401700000000");
    assert_eq!(payload_text("", "", 0, -5), "0-5");
}

#[test]
fn transaction_signature_is_checked_against_the_rebuilt_payload() {
    let signature = sign_transaction("AB401700000000", "pk-a");
    assert!(validate_transaction_signature("A", "B", 40, 1700000000, &signature, "pk-a"));
    assert!(!validate_transaction_signature("A", "B", 41, 1700000000, &signature, "pk-a"));
    assert!(!validate_transaction_signature("A", "B", 40, 1700000001, &signature, "pk-a"));
    assert!(!validate_transaction_signature("B", "A", 40, 1700000000, &signature, "pk-a"));
    assert!(!validate_transaction_signature("A", "B", 40, 1700000000, &signature, "pk-b"));
}

#[test]
fn decimal_numerals() {
    assert_eq!(decimal(0), "0");
    assert_eq!(decimal(7), "7");
    assert_eq!(decimal(10), "10");
    assert_eq!(decimal(1905), "1905");
    assert_eq!(decimal(u64::MAX), "18446744073709551615");
}

#[test]
fn signed_decimal_numerals() {
    assert_eq!(signed_decimal(0), "0");
    assert_eq!(signed_decimal(42), "42");
    assert_eq!(signed_decimal(-1), "-1");
    assert_eq!(signed_decimal(i64::MAX), "9223372036854775807");
    assert_eq!(signed_decimal(i64::MIN), "-9223372036854775808");
}

#[test]
fn text_helpers() {
    assert_eq!(joined("ab", "cd"), "abcd");
    assert_eq!(joined("", ""), "");
    assert!(same_text("héllo", "héllo"));
    assert!(!same_text("a", "b"));
    assert!(starts_with("00000abc", "00000"));
    assert!(starts_with("00000", "00000"));
    assert!(!starts_with("0000", "00000"));
    assert!(!starts_with("00001abc", "00000"));
    assert!(starts_with("anything", ""));
    assert!(starts_with("ééé", "éé"));
}

#[test]
fn timestamp_seconds_round_towards_the_past() {
    assert_eq!(Timestamp::from_nanos(0).seconds(), 0);
    assert_eq!(Timestamp::from_nanos(999_999_999).seconds(), 0);
    assert_eq!(Timestamp::from_nanos(1_000_000_000).seconds(), 1);
    assert_eq!(Timestamp::from_nanos(-1).seconds(), -1);
    assert_eq!(Timestamp::from_nanos(-1_000_000_000).seconds(), -1);
    assert_eq!(Timestamp::from_nanos(-1_000_000_001).seconds(), -2);
    assert_eq!(Timestamp::from_nanos(i64::MAX).seconds(), 9_223_372_036);
    assert_eq!(Timestamp::from_nanos(i64::MIN).seconds(), -9_223_372_037);
}

#[test]
fn timestamp_display_is_utc_date_and_time() {
    assert_eq!(
        Timestamp::from_nanos(1_431_648_000_000_000_000).display(),
        "2015-05-15 00:00:00 UTC"
    );
    assert_eq!(Timestamp::from_nanos(0).display(), "1970-01-01 00:00:00 UTC");
    assert_eq!(Timestamp::from_nanos(-1_000_000_000).display(), "1969-12-31 23:59:59 UTC");
    assert_eq!(Timestamp::from_nanos(1_500_000_000).display(), "1970-01-01 00:00:01.500 UTC");
}

#[test]
fn clock_reading_is_after_2020() {
    assert!(Timestamp::now().seconds() > 1_577_836_800);
}

#[test]
fn timestamp_in_rfc_3339_form() {
    assert_eq!(Timestamp::from_nanos(1_431_648_000_000_000_000).rfc3339(), "2015-05-15T00:00:00Z");
    assert_eq!(Timestamp::from_nanos(0).rfc3339(), "1970-01-01T00:00:00Z");
    assert_eq!(Timestamp::from_nanos(-1_000_000_000).rfc3339(), "1969-12-31T23:59:59Z");
    assert_eq!(Timestamp::from_nanos(1_500_000_000).rfc3339(), "1970-01-01T00:00:01.500Z");
    assert_eq!(Timestamp::from_nanos(1_000_001_000).rfc3339(), "1970-01-01T00:00:01.000001Z");
    assert_eq!(Timestamp::from_nanos(1_000_000_001).rfc3339(), "1970-01-01T00:00:01.000000001Z");
    assert_ne!(Timestamp::from_nanos(5).rfc3339(), Timestamp::from_nanos(5).display());
}
