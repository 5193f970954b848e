//! The journal entry and its persisted layout.
//!
//! A record starts with a fixed header, and the fields follow in order.
//! With `n` for the number of bytes of the title in UTF-8:
//!
//! | bytes              | field                                            |
//! |--------------------|--------------------------------------------------|
//! | `0 .. 8`           | header                                           |
//! | `8 .. 40`          | owner                                            |
//! | `40 .. 44`         | `n`, little-endian                               |
//! | `44 .. 44 + n`     | title, UTF-8                                     |
//! | `44 + n .. 76 + n` | content hash                                     |
//! | `76 + n .. 84 + n` | creation time, little-endian in two's complement |
//! | `84 + n`           | salt of the address                              |
//!
//! Every record is given `RECORD_SPACE` bytes of storage, which leaves the
//! title four bytes for each character it may have: room for every
//! acceptable title, whatever its characters.

use vstd::prelude::*;
use vstd::slice::{slice_subrange, slice_to_vec};
use vstd::utf8::{decode_utf8, encode_utf8, valid_utf8};
use crate::address::{entry_address_from_salt, entry_address_with_salt};
use crate::title::{title_ok, TITLE_MAX_LEN};
use crate::trusted::{address_bytes, string_from_utf8};
use crate::wire::{
    array_of, from_twos_complement, get_le, le_digits, le_number, of_twos_complement, put_le,
    same_bytes, to_twos_complement, twos_complement,
};

verus! {

/// The header that every record starts with: the tag by which the host
/// tells journal entries from records of other types, which is the first
/// eight bytes of the SHA-256 digest of `account:JournalEntry`.
pub const RECORD_HEADER: [u8; 8] = [255, 74, 177, 178, 227, 112, 46, 152];

/// The number of bytes of the header.
pub const HEADER_LEN: usize = 8;

/// The size of the storage that is allocated for every record.
pub const RECORD_SPACE: usize = HEADER_LEN + JournalEntry::INIT_SPACE;

/// A journal entry: who owns it, what it is called, the fingerprint of its
/// content, when it was created, and the salt of its address.
#[derive(Clone, Debug, PartialEq, Eq)]
pub struct JournalEntry {
    pub owner: [u8; 32],
    pub title: String,
    pub content_hash: [u8; 32],
    pub created_at: i64,
    pub bump: u8,
}

/// A journal entry as a mathematical value.
pub ghost struct EntryView {
    pub owner: Seq<u8>,
    pub title: Seq<char>,
    pub content_hash: Seq<u8>,
    pub created_at: int,
    pub bump: u8,
}

impl View for JournalEntry {
    type V = EntryView;

    open spec fn view(&self) -> EntryView {
        EntryView {
            owner: self.owner@,
            title: self.title@,
            content_hash: self.content_hash@,
            created_at: self.created_at as int,
            bump: self.bump,
        }
    }
}

impl EntryView {
    /// The shape that the fields of every `JournalEntry` have.
    pub open spec fn well_formed(self) -> bool {
        &&& self.owner.len() == 32
        &&& self.content_hash.len() == 32
        &&& i64::MIN <= self.created_at <= i64::MAX
    }

    /// What holds of every entry that was created: beyond the shape of
    /// its fields, its title has one to fifty characters.
    pub open spec fn valid(self) -> bool {
        &&& self.well_formed()
        &&& title_ok(self.title)
    }

    /// The title in UTF-8.
    pub open spec fn title_bytes(self) -> Seq<u8> {
        encode_utf8(self.title)
    }

    /// The bytes of the record, header included.
    pub open spec fn encoding(self) -> Seq<u8> {
        RECORD_HEADER@ + self.owner + le_digits(self.title_bytes().len(), 4) + self.title_bytes()
            + self.content_hash + le_digits(twos_complement(self.created_at), 8)
            + seq![self.bump]
    }

    /// The number of bytes of the record, header included.
    pub open spec fn encoded_len(self) -> nat {
        (85 + self.title_bytes().len()) as nat
    }
}

/// Tells whether the record of an entry with this title fits the space of
/// a record: the title has no more than four bytes for each character it
/// may have.
pub open spec fn record_fits(title: Seq<char>) -> bool {
    encode_utf8(title).len() <= 4 * TITLE_MAX_LEN
}

/// A title takes at most four bytes for each of its characters.
pub proof fn lemma_title_bytes_bound(title: Seq<char>)
    ensures
        encode_utf8(title).len() <= 4 * title.len(),
    decreases title.len(),
{
    if title.len() > 0 {
        lemma_title_bytes_bound(title.drop_first());
    }
}

/// The record of every acceptable title fits the space of a record.
pub proof fn lemma_acceptable_title_fits(title: Seq<char>)
    requires
        title_ok(title),
    ensures
        record_fits(title),
{
    lemma_title_bytes_bound(title);
}

/// The entry that the bytes of a record stand for. Bytes after the end of
/// the record are not looked at. `None` where the bytes are too few, the
/// header is another one or the title is not UTF-8.
pub open spec fn decoding(data: Seq<u8>) -> Option<EntryView> {
    if data.len() < 44 || data.subrange(0, 8) != RECORD_HEADER@ {
        None
    } else {
        let count = le_number(data.subrange(40, 44)) as int;
        if data.len() < 85 + count || !valid_utf8(data.subrange(44, 44 + count)) {
            None
        } else {
            Some(
                EntryView {
                    owner: data.subrange(8, 40),
                    title: decode_utf8(data.subrange(44, 44 + count)),
                    content_hash: data.subrange(44 + count, 76 + count),
                    created_at: from_twos_complement(
                        le_number(data.subrange(76 + count, 84 + count)),
                    ),
                    bump: data[84 + count],
                },
            )
        }
    }
}

/// The entry that an optional `JournalEntry` stands for.
pub open spec fn entry_view(entry: Option<JournalEntry>) -> Option<EntryView> {
    match entry {
        Some(e) => Some(e@),
        None => None,
    }
}

impl JournalEntry {
    /// The room that is set aside for the fields of a record: the owner,
    /// the length prefix and the longest title, at four bytes for each
    /// character, the content hash, the creation time and the salt.
    pub const INIT_SPACE: usize = 32 + 4 + 4 * TITLE_MAX_LEN + 32 + 8 + 1;

    /// Recomputes the address of this entry from its owner, its title and
    /// the salt that it holds.
    pub fn address(&self) -> (made: Option<[u8; 32]>)
        ensures
            address_bytes(made) == entry_address_with_salt(self.title@, self.owner@, self.bump),
    {
        entry_address_from_salt(self.title.as_str(), &self.owner, self.bump)
    }

    /// The record of this entry: the header and the fields in order,
    /// without the zeros that fill the rest of its storage. A length
    /// prefix holds four bytes, so a title of 2^32 bytes or more, which no
    /// valid entry has, is written with its length modulo 2^32.
    pub fn encode(&self) -> (bytes: Vec<u8>)
        ensures
            bytes@ == self@.encoding(),
            bytes@.len() == self@.encoded_len(),
    {
        let title_bytes = self.title.as_str().as_bytes();
        let header = RECORD_HEADER;
        let mut bytes: Vec<u8> = Vec::new();
        bytes.extend_from_slice(header.as_slice());
        bytes.extend_from_slice(self.owner.as_slice());
        put_le(&mut bytes, title_bytes.len() as u64, 4);
        bytes.extend_from_slice(title_bytes);
        bytes.extend_from_slice(self.content_hash.as_slice());
        put_le(&mut bytes, to_twos_complement(self.created_at), 8);
        bytes.push(self.bump);
        proof {
            crate::wire::lemma_le_digits_len(title_bytes@.len(), 4);
            crate::wire::lemma_le_digits_len(twos_complement(self.created_at as int), 8);
            assert(bytes@ =~= self@.encoding());
        }
        bytes
    }

    /// Reads a record back. Bytes after the end of the record are
    /// ignored. The title is taken as it is stored, of whatever length.
    pub fn decode(data: &[u8]) -> (entry: Option<JournalEntry>)
        ensures
            entry_view(entry) == decoding(data@),
    {
        if data.len() < 44 {
            return None;
        }
        let header = RECORD_HEADER;
        if !same_bytes(slice_subrange(data, 0, 8), header.as_slice()) {
            return None;
        }
        let count: u64 = get_le(data, 40, 4);
        proof {
            crate::wire::lemma_le_number_bound(data@.subrange(40, 44));
            reveal_with_fuel(crate::wire::radix_pow, 5);
        }
        if ((data.len() - 44) as u64) < 41 + count {
            return None;
        }
        let count: usize = count as usize;
        let title = match string_from_utf8(slice_to_vec(slice_subrange(data, 44, 44 + count))) {
            Some(title) => title,
            None => { return None; },
        };
        let owner = array_of(data, 8);
        let content_hash = array_of(data, 44 + count);
        let created_at = of_twos_complement(get_le(data, 76 + count, 8));
        let bump = data[84 + count];
        Some(JournalEntry { owner, title, content_hash, created_at, bump })
    }
}

/// A record is eighty-five bytes longer than its title, so it fits the
/// space of a record exactly when its title has no more than four bytes
/// for each character it may have.
pub proof fn lemma_encoding_len(entry: EntryView)
    requires
        entry.owner.len() == 32,
        entry.content_hash.len() == 32,
    ensures
        entry.encoding().len() == entry.encoded_len(),
        entry.encoding().len() <= RECORD_SPACE <==> record_fits(entry.title),
{
    crate::wire::lemma_le_digits_len(entry.title_bytes().len(), 4);
    crate::wire::lemma_le_digits_len(twos_complement(entry.created_at), 8);
}

/// Reading back what was written gives the entry that was written,
/// whatever bytes follow the record.
pub proof fn lemma_decoding_of_encoding(entry: EntryView, padding: Seq<u8>)
    requires
        entry.well_formed(),
        entry.title_bytes().len() <= u32::MAX,
    ensures
        decoding(entry.encoding() + padding) == Some(entry),
{
    let title = entry.title_bytes();
    let count = title.len() as int;
    let stamp = twos_complement(entry.created_at);
    let data = entry.encoding() + padding;
    crate::wire::lemma_le_digits_len(title.len(), 4);
    crate::wire::lemma_le_digits_len(stamp, 8);
    assert(data.subrange(0, 8) =~= RECORD_HEADER@);
    assert(data.subrange(8, 40) =~= entry.owner);
    assert(data.subrange(40, 44) =~= le_digits(title.len(), 4));
    assert(data.subrange(44, 44 + count) =~= title);
    assert(data.subrange(44 + count, 76 + count) =~= entry.content_hash);
    assert(data.subrange(76 + count, 84 + count) =~= le_digits(stamp, 8));
    assert(data[84 + count] == entry.bump);
    assert(le_number(le_digits(title.len(), 4)) == title.len()) by {
        reveal_with_fuel(crate::wire::radix_pow, 5);
        crate::wire::lemma_le_number_of_digits(title.len(), 4);
    }
    assert(le_number(le_digits(stamp, 8)) == stamp) by {
        reveal_with_fuel(crate::wire::radix_pow, 9);
        crate::wire::lemma_le_number_of_digits(stamp, 8);
    }
    vstd::utf8::encode_utf8_valid_utf8(entry.title);
    vstd::utf8::encode_utf8_decode_utf8(entry.title);
}

} // verus!
