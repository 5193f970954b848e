//! Creating a journal entry and finding it again.

use vstd::prelude::*;
use crate::address::{derive_entry_address, entry_address, entry_address_with_salt};
use crate::entry::{
    decoding, entry_view, lemma_acceptable_title_fits, lemma_encoding_len, EntryView,
    JournalEntry, RECORD_SPACE,
};
use crate::error::{AllocationError, CreationError, ErrorCode};
use crate::ledger::{Ledger, LedgerView};
use crate::title::{title_verdict, validate_title, TITLE_MAX_LEN};
use crate::trusted::address_and_salt;

verus! {

/// What the host supplies with a request for a new entry.
#[derive(Clone, Copy, Debug, PartialEq, Eq)]
pub struct CreateEntry {
    /// The authenticated requester. It becomes the owner of the entry and
    /// pays for its storage.
    pub owner: [u8; 32],
    /// What the requester can spend on storage.
    pub funds: u64,
    /// The time at which the request is served.
    pub now: i64,
}

/// A creation that succeeded: the entry, where it is stored, and the store
/// and the requester's funds afterwards.
pub ghost struct Creation {
    pub entry: EntryView,
    pub address: Seq<u8>,
    pub ledger: LedgerView,
    pub funds: nat,
}

/// The outcome of a request to create an entry when the derivation of its
/// address has come to `derived`. The title is checked first; then the
/// address must exist; then the store is asked for the room of one record
/// at that address, to hold the entry with the salt of the address.
pub open spec fn creation_at(
    ledger: LedgerView,
    owner: Seq<u8>,
    funds: nat,
    now: int,
    title: Seq<char>,
    content_hash: Seq<u8>,
    derived: Option<(Seq<u8>, u8)>,
) -> Result<Creation, CreationError> {
    match title_verdict(title) {
        Err(code) => Err(CreationError::Validation(code)),
        Ok(_) => match derived {
            None => Err(CreationError::NoAddress),
            Some((address, salt)) => {
                let entry = EntryView { owner, title, content_hash, created_at: now, bump: salt };
                match ledger.allocate(address, RECORD_SPACE as nat, entry.encoding(), funds) {
                    Err(reason) => Err(CreationError::Allocation(reason)),
                    Ok((after, left)) => Ok(
                        Creation { entry, address, ledger: after, funds: left },
                    ),
                }
            },
        },
    }
}

/// The outcome of a request to create an entry: that of `creation_at` with
/// the address derived from the title and the owner.
pub open spec fn creation(
    ledger: LedgerView,
    owner: Seq<u8>,
    funds: nat,
    now: int,
    title: Seq<char>,
    content_hash: Seq<u8>,
) -> Result<Creation, CreationError> {
    creation_at(ledger, owner, funds, now, title, content_hash, entry_address(title, owner))
}

/// The entry stored under `address`, if a record is there and its bytes
/// make up an entry.
pub open spec fn entry_at(ledger: LedgerView, address: Seq<u8>) -> Option<EntryView> {
    if ledger.records.contains_key(address) {
        decoding(ledger.records[address])
    } else {
        None
    }
}

/// Creates the entry that `ctx.owner` has under `title`, given what the
/// derivation of its address has come to. It is for a caller that has
/// derived the address itself; `create_journal_entry` does both. On
/// success the record is stored under the address, its cost is taken from
/// `ctx.funds`, and the entry comes back. On failure nothing is stored and
/// nothing is charged.
pub fn create_journal_entry_at(
    ledger: &mut Ledger,
    ctx: &mut CreateEntry,
    title: String,
    content_hash: [u8; 32],
    derived: Option<([u8; 32], u8)>,
) -> (created: Result<JournalEntry, CreationError>)
    ensures
        final(ctx).owner == old(ctx).owner,
        final(ctx).now == old(ctx).now,
        match creation_at(
            old(ledger)@,
            old(ctx).owner@,
            old(ctx).funds as nat,
            old(ctx).now as int,
            title@,
            content_hash@,
            address_and_salt(derived),
        ) {
            Ok(outcome) => {
                &&& created matches Ok(entry)
                &&& entry@ == outcome.entry
                &&& entry@.valid()
                &&& final(ledger)@ == outcome.ledger
                &&& final(ctx).funds == outcome.funds
            },
            Err(reason) => {
                &&& created == Err::<JournalEntry, CreationError>(reason)
                &&& final(ledger)@ == old(ledger)@
                &&& final(ctx).funds == old(ctx).funds
            },
        },
        ({
            &&& 1 <= title@.len() <= TITLE_MAX_LEN
            &&& derived is Some
            &&& !old(ledger)@.records.contains_key(derived->Some_0.0@)
            &&& old(ctx).funds >= old(ledger)@.cost(RECORD_SPACE as nat)
        }) ==> created is Ok,
{
    match validate_title(title.as_str()) {
        Err(code) => { return Err(CreationError::Validation(code)); },
        Ok(_) => {},
    }
    proof {
        lemma_acceptable_title_fits(title@);
    }
    let (address, bump) = match derived {
        None => { return Err(CreationError::NoAddress); },
        Some(found) => found,
    };
    let entry = JournalEntry {
        owner: ctx.owner,
        title,
        content_hash,
        created_at: ctx.now,
        bump,
    };
    let record = entry.encode();
    proof {
        lemma_encoding_len(entry@);
    }
    match ledger.allocate(&address, RECORD_SPACE, record.as_slice(), ctx.funds) {
        Err(reason) => Err(CreationError::Allocation(reason)),
        Ok(left) => {
            ctx.funds = left;
            Ok(entry)
        },
    }
}

/// Creates the entry that `ctx.owner` has under `title`: checks the title,
/// derives the address, and stores the record there. It succeeds for every
/// acceptable title whose address exists and is free, when the requester
/// can pay for one record. On success the cost of the record is taken from
/// `ctx.funds` and the entry comes back, with the salt that leads back to
/// its address. On failure nothing is stored and nothing is charged: a
/// title that breaks a rule is refused whatever the store holds, an
/// address that holds a record makes the request a duplicate, and a
/// requester who cannot pay for one record is refused for want of funds.
pub fn create_journal_entry(
    ledger: &mut Ledger,
    ctx: &mut CreateEntry,
    title: String,
    content_hash: [u8; 32],
) -> (created: Result<JournalEntry, CreationError>)
    ensures
        final(ctx).owner == old(ctx).owner,
        final(ctx).now == old(ctx).now,
        match creation(
            old(ledger)@,
            old(ctx).owner@,
            old(ctx).funds as nat,
            old(ctx).now as int,
            title@,
            content_hash@,
        ) {
            Ok(outcome) => {
                &&& created matches Ok(entry)
                &&& entry@ == outcome.entry
                &&& entry@.valid()
                &&& entry_address_with_salt(entry@.title, entry@.owner, entry@.bump) == Some(
                    outcome.address,
                )
                &&& final(ledger)@ == outcome.ledger
                &&& final(ctx).funds == outcome.funds
            },
            Err(reason) => {
                &&& created == Err::<JournalEntry, CreationError>(reason)
                &&& final(ledger)@ == old(ledger)@
                &&& final(ctx).funds == old(ctx).funds
            },
        },
        ({
            &&& 1 <= title@.len() <= TITLE_MAX_LEN
            &&& entry_address(title@, old(ctx).owner@) is Some
            &&& !old(ledger)@.records.contains_key(
                entry_address(title@, old(ctx).owner@)->Some_0.0,
            )
            &&& old(ctx).funds >= old(ledger)@.cost(RECORD_SPACE as nat)
        }) ==> created is Ok,
        ({
            &&& 1 <= title@.len() <= TITLE_MAX_LEN
            &&& entry_address(title@, old(ctx).owner@) is Some
            &&& old(ledger)@.records.contains_key(
                entry_address(title@, old(ctx).owner@)->Some_0.0,
            )
        }) ==> created == Err::<JournalEntry, CreationError>(
            CreationError::Allocation(AllocationError::DuplicateEntry),
        ),
        ({
            &&& 1 <= title@.len() <= TITLE_MAX_LEN
            &&& entry_address(title@, old(ctx).owner@) is Some
            &&& !old(ledger)@.records.contains_key(
                entry_address(title@, old(ctx).owner@)->Some_0.0,
            )
            &&& old(ctx).funds < old(ledger)@.cost(RECORD_SPACE as nat)
        }) ==> created == Err::<JournalEntry, CreationError>(
            CreationError::Allocation(AllocationError::InsufficientFunds),
        ),
        title@.len() == 0 ==> {
            &&& created == Err::<JournalEntry, CreationError>(
                CreationError::Validation(ErrorCode::TitleRequired),
            )
            &&& final(ledger)@ == old(ledger)@
            &&& final(ctx).funds == old(ctx).funds
        },
        title@.len() > TITLE_MAX_LEN ==> {
            &&& created == Err::<JournalEntry, CreationError>(
                CreationError::Validation(ErrorCode::TitleTooLong),
            )
            &&& final(ledger)@ == old(ledger)@
            &&& final(ctx).funds == old(ctx).funds
        },
{
    match validate_title(title.as_str()) {
        Err(code) => { return Err(CreationError::Validation(code)); },
        Ok(_) => {},
    }
    let derived = derive_entry_address(title.as_str(), &ctx.owner);
    proof {
        lemma_acceptable_title_fits(title@);
        if let Some((address, salt)) = derived {
            lemma_encoding_len(
                EntryView {
                    owner: ctx.owner@,
                    title: title@,
                    content_hash: content_hash@,
                    created_at: ctx.now as int,
                    bump: salt,
                },
            );
        }
    }
    create_journal_entry_at(ledger, ctx, title, content_hash, derived)
}

/// Reads the entry stored under `address`.
pub fn read_journal_entry(ledger: &Ledger, address: &[u8; 32]) -> (entry: Option<JournalEntry>)
    ensures
        entry_view(entry) == entry_at(ledger@, address@),
{
    match ledger.record_at(address) {
        Some(data) => JournalEntry::decode(data.as_slice()),
        None => None,
    }
}

/// Looks up the entry that `owner` has under `title`, by its derived
/// address.
pub fn find_journal_entry(ledger: &Ledger, title: &str, owner: &[u8; 32]) -> (entry: Option<
    JournalEntry,
>)
    ensures
        entry_view(entry) == match entry_address(title@, owner@) {
            Some((address, salt)) => entry_at(ledger@, address),
            None => None,
        },
{
    match derive_entry_address(title, owner) {
        Some((address, _)) => read_journal_entry(ledger, &address),
        None => None,
    }
}

} // verus!
