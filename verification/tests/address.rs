use std::str::FromStr;

use anchor_lang::prelude::Pubkey;
use anchor_lang::solana_program::hash::hash;
use journal_dapp::address::{JOURNAL_ENTRY_SEED, PROGRAM_ID};
use journal_dapp::{derive_entry_address, entry_address_from_salt, title_fingerprint};

const ALICE: [u8; 32] = [1u8; 32];
const BOB: [u8; 32] = [2u8; 32];

#[test]
fn namespace_tag_is_journal() {
    assert_eq!(JOURNAL_ENTRY_SEED, "journal");
}

#[test]
fn program_id_is_the_declared_identifier() {
    let declared = Pubkey::from_str("71iBVGZLuWzemewsXTEydY652dxChTjrY1jZwJdmAbGn").unwrap();
    assert_eq!(declared.to_bytes(), PROGRAM_ID);
}

#[test]
fn fingerprint_is_the_sha256_digest_of_the_title() {
    let expected: [u8; 32] = [
        46, 169, 9, 154, 29, 14, 97, 230, 201, 54, 43, 202, 95, 42, 80, 62, 221, 153, 251, 155,
        214, 242, 131, 22, 181, 138, 170, 115, 137, 134, 128, 35,
    ];
    assert_eq!(title_fingerprint("Day 1"), expected);
}

#[test]
fn fingerprint_hashes_the_utf8_bytes() {
    let title = "\u{e9}\u{e9}\u{e9}";
    assert_eq!(title_fingerprint(title), hash(title.as_bytes()).to_bytes());
    assert_ne!(title_fingerprint(title), title_fingerprint("eee"));
}

#[test]
fn fingerprint_is_not_the_title_itself() {
    let title = "0123456789abcdef0123456789abcdef";
    assert_eq!(title.len(), 32);
    assert_ne!(&title_fingerprint(title)[..], title.as_bytes());
}

#[test]
fn derivation_gives_the_expected_address_and_salt() {
    let expected: [u8; 32] = [
        60, 203, 177, 154, 232, 99, 117, 212, 56, 111, 213, 226, 229, 130, 228, 115, 254, 68,
        128, 7, 22, 10, 54, 52, 250, 233, 99, 41, 247, 186, 73, 180,
    ];
    assert_eq!(derive_entry_address("Day 1", &ALICE), Some((expected, 255)));
}

#[test]
fn derivation_searches_past_invalid_salts() {
    let expected: [u8; 32] = [
        191, 194, 147, 233, 244, 91, 237, 87, 123, 238, 203, 5, 254, 41, 246, 79, 25, 149, 220,
        127, 108, 111, 28, 179, 219, 74, 7, 45, 209, 117, 90, 168,
    ];
    assert_eq!(derive_entry_address("Day 2", &BOB), Some((expected, 253)));
    assert_eq!(entry_address_from_salt("Day 2", &BOB, 255), None);
    assert_eq!(entry_address_from_salt("Day 2", &BOB, 254), None);
    assert_eq!(entry_address_from_salt("Day 2", &BOB, 253), Some(expected));
}

#[test]
fn derivation_is_repeatable() {
    let first = derive_entry_address("Day 1", &ALICE);
    let second = derive_entry_address("Day 1", &ALICE);
    assert!(first.is_some());
    assert_eq!(first, second);
}

#[test]
fn derivation_agrees_with_the_host() {
    let title = "A longer title, with \u{fc}ml\u{e4}uts";
    let fingerprint = hash(title.as_bytes()).to_bytes();
    let (key, bump) = Pubkey::find_program_address(
        &[b"journal", &fingerprint, &ALICE],
        &Pubkey::new_from_array(PROGRAM_ID),
    );
    assert_eq!(derive_entry_address(title, &ALICE), Some((key.to_bytes(), bump)));
}

#[test]
fn salt_leads_back_to_the_address() {
    let (address, salt) = derive_entry_address("Day 1", &BOB).unwrap();
    assert_eq!(entry_address_from_salt("Day 1", &BOB, salt), Some(address));
}

#[test]
fn another_salt_gives_another_address_or_none() {
    let (address, salt) = derive_entry_address("Day 1", &ALICE).unwrap();
    let other = entry_address_from_salt("Day 1", &ALICE, salt - 1);
    assert_ne!(other, Some(address));
}

#[test]
fn owners_have_their_own_addresses() {
    let (alice, _) = derive_entry_address("Day 1", &ALICE).unwrap();
    let (bob, _) = derive_entry_address("Day 1", &BOB).unwrap();
    let expected_bob: [u8; 32] = [
        25, 165, 125, 63, 253, 61, 193, 114, 222, 23, 114, 27, 20, 220, 160, 230, 28, 240, 23,
        33, 186, 249, 50, 7, 175, 76, 149, 169, 197, 32, 50, 140,
    ];
    assert_eq!(bob, expected_bob);
    assert_ne!(alice, bob);
}

#[test]
fn titles_have_their_own_addresses() {
    let (one, _) = derive_entry_address("Day 1", &ALICE).unwrap();
    let (two, _) = derive_entry_address("Day 2", &ALICE).unwrap();
    let expected_two: [u8; 32] = [
        200, 209, 119, 229, 72, 181, 240, 104, 101, 116, 82, 229, 118, 73, 205, 200, 120, 227,
        216, 175, 202, 131, 129, 20, 212, 63, 213, 36, 198, 0, 126, 238,
    ];
    assert_eq!(two, expected_two);
    assert_ne!(one, two);
}

#[test]
fn derived_address_is_not_a_seed() {
    let (address, _) = derive_entry_address("Day 1", &ALICE).unwrap();
    assert_ne!(address, ALICE);
    assert_ne!(address, title_fingerprint("Day 1"));
    assert_ne!(address, PROGRAM_ID);
}
