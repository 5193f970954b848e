//! Where a journal entry lives: its address is derived from a namespace
//! tag, the fingerprint of its title and its owner.

use vstd::prelude::*;
use vstd::string::StringSliceAdditionalSpecFns;
use crate::trusted::{
    address_and_salt, address_bytes, create_program_address, find_program_address,
    program_address, seeded_address, sha256, sha256_digest,
};

verus! {

/// The namespace tag that starts the seeds of every journal entry.
pub const JOURNAL_ENTRY_SEED: &'static str = "journal";

/// The identifier of this program, under which all addresses are derived.
pub const PROGRAM_ID: [u8; 32] = [
    89, 84, 175, 82, 189, 236, 99, 73, 51, 205, 214, 27, 109, 111, 153, 177,
    75, 129, 217, 226, 72, 129, 135, 110, 161, 29, 254, 202, 138, 70, 36, 67,
];

/// The fingerprint of a title: the SHA-256 digest of its UTF-8 bytes.
pub open spec fn fingerprint_of(title: Seq<char>) -> Seq<u8> {
    sha256(vstd::utf8::encode_utf8(title))
}

/// The seeds of the entry that `owner` has under `title`.
pub open spec fn entry_seeds(title: Seq<char>, owner: Seq<u8>) -> Seq<Seq<u8>> {
    seq![JOURNAL_ENTRY_SEED.spec_bytes(), fingerprint_of(title), owner]
}

/// The address of the entry that `owner` has under `title`, and its salt.
pub open spec fn entry_address(title: Seq<char>, owner: Seq<u8>) -> Option<(Seq<u8>, u8)> {
    program_address(entry_seeds(title, owner), PROGRAM_ID@)
}

/// The address that `salt` gives for the entry that `owner` has under
/// `title`.
pub open spec fn entry_address_with_salt(title: Seq<char>, owner: Seq<u8>, salt: u8) -> Option<
    Seq<u8>,
> {
    seeded_address(entry_seeds(title, owner).push(seq![salt]), PROGRAM_ID@)
}

/// Different owners have different seeds under every title. Whether their
/// addresses differ as well is up to the host's derivation.
pub proof fn lemma_seeds_tell_owners_apart(title: Seq<char>, owner: Seq<u8>, other: Seq<u8>)
    requires
        owner != other,
    ensures
        entry_seeds(title, owner) != entry_seeds(title, other),
{
    assert(entry_seeds(title, owner)[2] == owner);
    assert(entry_seeds(title, other)[2] == other);
}

/// Computes the fingerprint of a title.
pub fn title_fingerprint(title: &str) -> (fingerprint: [u8; 32])
    ensures
        fingerprint@ == fingerprint_of(title@),
{
    sha256_digest(title.as_bytes())
}

/// Derives the address of the entry that `owner` has under `title`,
/// together with the salt that makes the address valid. The outcome depends
/// on the title and the owner alone, and the salt leads back to the address.
pub fn derive_entry_address(title: &str, owner: &[u8; 32]) -> (found: Option<([u8; 32], u8)>)
    ensures
        address_and_salt(found) == entry_address(title@, owner@),
        found matches Some((address, salt)) ==> entry_address_with_salt(title@, owner@, salt)
            == Some(address@),
{
    let fingerprint = title_fingerprint(title);
    let program = PROGRAM_ID;
    let found = find_program_address(JOURNAL_ENTRY_SEED.as_bytes(), &fingerprint, owner, &program);
    proof {
        assert(entry_seeds(title@, owner@) =~= seq![
            JOURNAL_ENTRY_SEED.spec_bytes(),
            fingerprint@,
            owner@,
        ]);
        if let Some((address, salt)) = found {
            assert(entry_seeds(title@, owner@).push(seq![salt]) =~= seq![
                JOURNAL_ENTRY_SEED.spec_bytes(),
                fingerprint@,
                owner@,
                seq![salt],
            ]);
        }
    }
    found
}

/// Recomputes the address of the entry that `owner` has under `title` from
/// a salt that was recorded earlier, without searching for one.
pub fn entry_address_from_salt(title: &str, owner: &[u8; 32], salt: u8) -> (made: Option<[u8; 32]>)
    ensures
        address_bytes(made) == entry_address_with_salt(title@, owner@, salt),
{
    let fingerprint = title_fingerprint(title);
    let program = PROGRAM_ID;
    let made = create_program_address(
        JOURNAL_ENTRY_SEED.as_bytes(),
        &fingerprint,
        owner,
        salt,
        &program,
    );
    proof {
        assert(entry_seeds(title@, owner@).push(seq![salt]) =~= seq![
            JOURNAL_ENTRY_SEED.spec_bytes(),
            fingerprint@,
            owner@,
            seq![salt],
        ]);
    }
    made
}

} // verus!
