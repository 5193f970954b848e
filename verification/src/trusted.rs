//! The calls that leave the verified code: hashing and address derivation
//! by the host's library, and the UTF-8 check of the standard library.
//!
//! Nothing in this module is proved. Each function hands its arguments on
//! and its contract records what the callee is trusted to return.

use vstd::prelude::*;
use vstd::utf8::{decode_utf8, valid_utf8};

verus! {

/// The SHA-256 digest of `data`.
pub uninterp spec fn sha256(data: Seq<u8>) -> Seq<u8>;

/// The address that the host finds for `seeds` under `program`, with the
/// salt that it found it with; `None` where it finds none.
pub uninterp spec fn program_address(seeds: Seq<Seq<u8>>, program: Seq<u8>) -> Option<
    (Seq<u8>, u8),
>;

/// The address that the host computes from `seeds` under `program` without
/// searching for a salt; `None` where the seeds give no valid address.
pub uninterp spec fn seeded_address(seeds: Seq<Seq<u8>>, program: Seq<u8>) -> Option<Seq<u8>>;

/// An address and its salt, as sequences.
pub open spec fn address_and_salt(found: Option<([u8; 32], u8)>) -> Option<(Seq<u8>, u8)> {
    match found {
        Some((address, salt)) => Some((address@, salt)),
        None => None,
    }
}

/// An address, as a sequence.
pub open spec fn address_bytes(found: Option<[u8; 32]>) -> Option<Seq<u8>> {
    match found {
        Some(address) => Some(address@),
        None => None,
    }
}

/// `solana_program::hash::hash`, with the digest taken out of its `Hash`.
/// Trusted: the digest is SHA-256 of the input, a function of the input
/// bytes alone.
#[verifier::external_body]
pub(crate) fn sha256_digest(data: &[u8]) -> (digest: [u8; 32])
    ensures
        digest@ == sha256(data@),
{
    anchor_lang::solana_program::hash::hash(data).to_bytes()
}

/// `Pubkey::try_find_program_address` on the three seeds, in this order.
/// Trusted: the outcome is a function of the seeds and the program
/// identifier alone, and an address that is found is the one that
/// `Pubkey::create_program_address` computes from the same seeds followed
/// by the one-byte seed that holds the salt.
#[verifier::external_body]
pub(crate) fn find_program_address(
    tag: &[u8],
    fingerprint: &[u8; 32],
    owner: &[u8; 32],
    program: &[u8; 32],
) -> (found: Option<([u8; 32], u8)>)
    ensures
        address_and_salt(found) == program_address(seq![tag@, fingerprint@, owner@], program@),
        found matches Some((address, salt)) ==> seeded_address(
            seq![tag@, fingerprint@, owner@, seq![salt]],
            program@,
        ) == Some(address@),
{
    let program_key = anchor_lang::prelude::Pubkey::new_from_array(*program);
    match anchor_lang::prelude::Pubkey::try_find_program_address(
        &[tag, fingerprint, owner],
        &program_key,
    ) {
        Some((key, salt)) => Some((key.to_bytes(), salt)),
        None => None,
    }
}

/// `Pubkey::create_program_address` on the three seeds followed by the
/// one-byte seed that holds `salt`. Trusted: the outcome is a function of
/// the seeds and the program identifier alone. An error of the host, which
/// tells that the seeds give no valid address, becomes `None`.
#[verifier::external_body]
pub(crate) fn create_program_address(
    tag: &[u8],
    fingerprint: &[u8; 32],
    owner: &[u8; 32],
    salt: u8,
    program: &[u8; 32],
) -> (made: Option<[u8; 32]>)
    ensures
        address_bytes(made) == seeded_address(
            seq![tag@, fingerprint@, owner@, seq![salt]],
            program@,
        ),
{
    let program_key = anchor_lang::prelude::Pubkey::new_from_array(*program);
    match anchor_lang::prelude::Pubkey::create_program_address(
        &[tag, fingerprint, owner, &[salt]],
        &program_key,
    ) {
        Ok(key) => Some(key.to_bytes()),
        Err(_) => None,
    }
}

/// `String::from_utf8`. Trusted: it gives a string exactly when the bytes
/// are valid UTF-8, and the string then holds the characters that the bytes
/// encode.
#[verifier::external_body]
pub(crate) fn string_from_utf8(bytes: Vec<u8>) -> (text: Option<String>)
    ensures
        text is Some <==> valid_utf8(bytes@),
        text matches Some(s) ==> s@ == decode_utf8(bytes@),
{
    match String::from_utf8(bytes) {
        Ok(text) => Some(text),
        Err(_) => None,
    }
}

} // verus!
