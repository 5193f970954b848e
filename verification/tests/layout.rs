use anchor_lang::prelude::Pubkey;
use anchor_lang::solana_program::hash::hash;
use anchor_lang::AnchorSerialize;
use journal_dapp::entry::{HEADER_LEN, RECORD_HEADER, RECORD_SPACE};
use journal_dapp::{derive_entry_address, JournalEntry};

fn sample(title: &str, created_at: i64) -> JournalEntry {
    let mut content_hash = [0u8; 32];
    for (i, byte) in content_hash.iter_mut().enumerate() {
        *byte = 200 + i as u8;
    }
    JournalEntry { owner: [7u8; 32], title: title.to_string(), content_hash, created_at, bump: 254 }
}

#[test]
fn record_space_is_header_and_fields() {
    assert_eq!(HEADER_LEN, 8);
    assert_eq!(JournalEntry::INIT_SPACE, 277);
    assert_eq!(RECORD_SPACE, 285);
}

#[test]
fn header_is_the_tag_of_the_account_type() {
    let digest = hash(b"account:JournalEntry").to_bytes();
    assert_eq!(&RECORD_HEADER[..], &digest[..8]);
}

#[test]
fn encode_lays_the_fields_out_in_order() {
    let entry = sample("Day 1", 1_700_000_000);
    let mut expected: Vec<u8> = vec![255, 74, 177, 178, 227, 112, 46, 152];
    expected.extend_from_slice(&[7u8; 32]);
    expected.extend_from_slice(&[5, 0, 0, 0]);
    expected.extend_from_slice(b"Day 1");
    expected.extend_from_slice(&entry.content_hash);
    expected.extend_from_slice(&[0x00, 0xf1, 0x53, 0x65, 0, 0, 0, 0]);
    expected.push(254);
    assert_eq!(expected.len(), 90);
    assert_eq!(entry.encode(), expected);
}

#[test]
fn encode_writes_negative_times_in_twos_complement() {
    let bytes = sample("t", -2).encode();
    assert_eq!(&bytes[77..85], &[0xfe, 0xff, 0xff, 0xff, 0xff, 0xff, 0xff, 0xff]);
    let bytes = sample("t", i64::MIN).encode();
    assert_eq!(&bytes[77..85], &[0, 0, 0, 0, 0, 0, 0, 0x80]);
    let bytes = sample("t", i64::MAX).encode();
    assert_eq!(&bytes[77..85], &[0xff, 0xff, 0xff, 0xff, 0xff, 0xff, 0xff, 0x7f]);
    let bytes = sample("t", 0).encode();
    assert_eq!(&bytes[77..85], &[0u8; 8]);
}

#[test]
fn encode_prefixes_the_title_with_its_byte_length() {
    let title = "\u{65e5}\u{8a18}".repeat(100);
    let bytes = sample(&title, 0).encode();
    assert_eq!(title.len(), 600);
    assert_eq!(&bytes[40..44], &[0x58, 0x02, 0, 0]);
    assert_eq!(bytes.len(), 85 + 600);
    assert_eq!(&bytes[44..644], title.as_bytes());
}

#[test]
fn encode_agrees_with_the_host_serializer() {
    let entry = sample("Gr\u{fc}\u{df}e, Tagebuch", -1_234_567_890_123);
    let mut expected: Vec<u8> = RECORD_HEADER.to_vec();
    Pubkey::new_from_array(entry.owner).serialize(&mut expected).unwrap();
    entry.title.serialize(&mut expected).unwrap();
    entry.content_hash.serialize(&mut expected).unwrap();
    entry.created_at.serialize(&mut expected).unwrap();
    entry.bump.serialize(&mut expected).unwrap();
    assert_eq!(entry.encode(), expected);
}

#[test]
fn decode_gives_back_what_encode_wrote() {
    for title in ["Day 1", "x", "\u{1f600} mood", ""] {
        for created_at in [0, 1, -1, 1_700_000_000, i64::MIN, i64::MAX] {
            let entry = sample(title, created_at);
            assert_eq!(JournalEntry::decode(&entry.encode()), Some(entry));
        }
    }
}

#[test]
fn decode_ignores_what_follows_the_record() {
    let entry = sample("Day 1", 42);
    let mut bytes = entry.encode();
    bytes.resize(RECORD_SPACE, 0);
    assert_eq!(JournalEntry::decode(&bytes), Some(entry.clone()));
    bytes.extend_from_slice(&[9, 9, 9]);
    assert_eq!(JournalEntry::decode(&bytes), Some(entry));
}

#[test]
fn decode_refuses_too_few_bytes() {
    let bytes = sample("Day 1", 42).encode();
    assert_eq!(JournalEntry::decode(&[]), None);
    assert_eq!(JournalEntry::decode(&bytes[..43]), None);
    assert_eq!(JournalEntry::decode(&bytes[..44]), None);
    assert_eq!(JournalEntry::decode(&bytes[..bytes.len() - 1]), None);
    assert!(JournalEntry::decode(&bytes).is_some());
}

#[test]
fn decode_refuses_another_header() {
    let mut bytes = sample("Day 1", 42).encode();
    bytes[0] ^= 1;
    assert_eq!(JournalEntry::decode(&bytes), None);
    let zeros = vec![0u8; RECORD_SPACE];
    assert_eq!(JournalEntry::decode(&zeros), None);
}

#[test]
fn decode_refuses_a_title_that_is_not_utf8() {
    let mut bytes = sample("Day 1", 42).encode();
    bytes[44] = 0xff;
    assert_eq!(JournalEntry::decode(&bytes), None);
    let mut bytes = sample("\u{e9}", 42).encode();
    bytes[45] = b'a';
    assert_eq!(JournalEntry::decode(&bytes), None);
}

#[test]
fn decode_refuses_a_length_that_overruns_the_bytes() {
    let mut bytes = sample("Day 1", 42).encode();
    bytes[40] = 6;
    assert_eq!(JournalEntry::decode(&bytes), None);
    bytes[40] = 5;
    bytes[43] = 0xff;
    assert_eq!(JournalEntry::decode(&bytes), None);
}

#[test]
fn decode_reads_each_field_from_its_place() {
    let mut bytes: Vec<u8> = RECORD_HEADER.to_vec();
    bytes.extend_from_slice(&[3u8; 32]);
    bytes.extend_from_slice(&[2, 0, 0, 0]);
    bytes.extend_from_slice(b"ok");
    bytes.extend_from_slice(&[4u8; 32]);
    bytes.extend_from_slice(&[0x39, 0x30, 0, 0, 0, 0, 0, 0]);
    bytes.push(17);
    let entry = JournalEntry::decode(&bytes).unwrap();
    assert_eq!(entry.owner, [3u8; 32]);
    assert_eq!(entry.title, "ok");
    assert_eq!(entry.content_hash, [4u8; 32]);
    assert_eq!(entry.created_at, 12345);
    assert_eq!(entry.bump, 17);
}

#[test]
fn entry_recomputes_its_address_from_its_salt() {
    let owner = [7u8; 32];
    let (address, salt) = derive_entry_address("Day 1", &owner).unwrap();
    let mut entry = sample("Day 1", 0);
    entry.bump = salt;
    assert_eq!(entry.address(), Some(address));
    entry.title = "Day 2".to_string();
    assert_ne!(entry.address(), Some(address));
}
