//! What holds of creation and lookup on every store and every request,
//! stated over the outcome `creation` that `create_journal_entry` realises.

use vstd::prelude::*;
use crate::address::entry_address;
use crate::create::{creation, entry_at, Creation};
use crate::entry::{
    lemma_acceptable_title_fits, lemma_decoding_of_encoding, lemma_encoding_len, EntryView,
    RECORD_SPACE,
};
use crate::error::{AllocationError, CreationError};
use crate::ledger::{zeros, LedgerView};
use crate::title::title_ok;
use crate::trusted::address_and_salt;

verus! {

/// Derivation is a function of the title and the owner: two outcomes for
/// the same title and owner are the same address and the same salt.
pub proof fn theorem_derivation_is_a_function(
    title: Seq<char>,
    owner: Seq<u8>,
    first: Option<([u8; 32], u8)>,
    second: Option<([u8; 32], u8)>,
)
    requires
        address_and_salt(first) == entry_address(title, owner),
        address_and_salt(second) == entry_address(title, owner),
    ensures
        first == second,
{
    if let Some((a, s)) = first {
        let (b, t) = second->Some_0;
        assert(a@ == b@);
        assert(a =~= b);
    }
}

/// Creation succeeds exactly when the title is acceptable, an address
/// exists for the owner and the title, the address is free and the
/// requester can pay. The entry then holds what was supplied, with the
/// time of the request and the salt of the address, and the requester has
/// paid for one record.
pub proof fn theorem_creation_succeeds(
    ledger: LedgerView,
    owner: Seq<u8>,
    funds: nat,
    now: int,
    title: Seq<char>,
    content_hash: Seq<u8>,
)
    requires
        owner.len() == 32,
        content_hash.len() == 32,
    ensures
        creation(ledger, owner, funds, now, title, content_hash) is Ok <==> {
            &&& title_ok(title)
            &&& entry_address(title, owner) is Some
            &&& !ledger.records.contains_key(entry_address(title, owner)->Some_0.0)
            &&& funds >= ledger.cost(RECORD_SPACE as nat)
        },
        creation(ledger, owner, funds, now, title, content_hash) matches Ok(made) ==> {
            &&& made.entry == (EntryView {
                owner,
                title,
                content_hash,
                created_at: now,
                bump: entry_address(title, owner)->Some_0.1,
            })
            &&& made.address == entry_address(title, owner)->Some_0.0
            &&& made.funds == funds - ledger.cost(RECORD_SPACE as nat)
        },
{
    if title_ok(title) {
        lemma_acceptable_title_fits(title);
    }
    if let Some((address, salt)) = entry_address(title, owner) {
        lemma_encoding_len(
            EntryView { owner, title, content_hash, created_at: now, bump: salt },
        );
    }
}

/// An entry is created exactly once for an owner and a title. Where the
/// title is acceptable, the address exists and is free, and the requester
/// can pay, the request succeeds; every further
/// request of the same owner under the same title is then refused as a
/// duplicate, whatever content, time and funds it comes with.
pub proof fn theorem_created_exactly_once(
    ledger: LedgerView,
    owner: Seq<u8>,
    funds: nat,
    now: int,
    title: Seq<char>,
    content_hash: Seq<u8>,
    later_funds: nat,
    later_now: int,
    later_hash: Seq<u8>,
)
    requires
        owner.len() == 32,
        content_hash.len() == 32,
        later_hash.len() == 32,
        title_ok(title),
        entry_address(title, owner) is Some,
        !ledger.records.contains_key(entry_address(title, owner)->Some_0.0),
        funds >= ledger.cost(RECORD_SPACE as nat),
    ensures
        creation(ledger, owner, funds, now, title, content_hash) is Ok,
        creation(
            creation(ledger, owner, funds, now, title, content_hash)->Ok_0.ledger,
            owner,
            later_funds,
            later_now,
            title,
            later_hash,
        ) == Err::<Creation, CreationError>(
            CreationError::Allocation(AllocationError::DuplicateEntry),
        ),
{
    let (address, salt) = entry_address(title, owner)->Some_0;
    lemma_acceptable_title_fits(title);
    lemma_encoding_len(EntryView { owner, title, content_hash, created_at: now, bump: salt });
    lemma_encoding_len(
        EntryView { owner, title, content_hash: later_hash, created_at: later_now, bump: salt },
    );
}

/// As long as a record is held under the address of an owner and a title,
/// no entry is created for them: a request with an acceptable title is
/// refused as a duplicate.
pub proof fn theorem_held_address_is_a_duplicate(
    ledger: LedgerView,
    owner: Seq<u8>,
    funds: nat,
    now: int,
    title: Seq<char>,
    content_hash: Seq<u8>,
)
    requires
        owner.len() == 32,
        content_hash.len() == 32,
        title_ok(title),
        entry_address(title, owner) is Some,
        ledger.records.contains_key(entry_address(title, owner)->Some_0.0),
    ensures
        creation(ledger, owner, funds, now, title, content_hash) == Err::<
            Creation,
            CreationError,
        >(CreationError::Allocation(AllocationError::DuplicateEntry)),
{
    let (address, salt) = entry_address(title, owner)->Some_0;
    lemma_acceptable_title_fits(title);
    lemma_encoding_len(EntryView { owner, title, content_hash, created_at: now, bump: salt });
}

/// A requester who cannot pay for one record gets no entry: with an
/// acceptable title and a free address, the request is refused for want of
/// funds.
pub proof fn theorem_unfunded_request_is_refused(
    ledger: LedgerView,
    owner: Seq<u8>,
    funds: nat,
    now: int,
    title: Seq<char>,
    content_hash: Seq<u8>,
)
    requires
        owner.len() == 32,
        content_hash.len() == 32,
        title_ok(title),
        entry_address(title, owner) is Some,
        !ledger.records.contains_key(entry_address(title, owner)->Some_0.0),
        funds < ledger.cost(RECORD_SPACE as nat),
    ensures
        creation(ledger, owner, funds, now, title, content_hash) == Err::<
            Creation,
            CreationError,
        >(CreationError::Allocation(AllocationError::InsufficientFunds)),
{
    let (address, salt) = entry_address(title, owner)->Some_0;
    lemma_acceptable_title_fits(title);
    lemma_encoding_len(EntryView { owner, title, content_hash, created_at: now, bump: salt });
}

/// The space of a record is never too small for an entry: no request is
/// refused for the size of its record.
pub proof fn theorem_record_always_fits(
    ledger: LedgerView,
    owner: Seq<u8>,
    funds: nat,
    now: int,
    title: Seq<char>,
    content_hash: Seq<u8>,
)
    requires
        owner.len() == 32,
        content_hash.len() == 32,
    ensures
        creation(ledger, owner, funds, now, title, content_hash) != Err::<
            Creation,
            CreationError,
        >(CreationError::Allocation(AllocationError::SpaceTooSmall)),
{
    if title_ok(title) {
        lemma_acceptable_title_fits(title);
        if let Some((address, salt)) = entry_address(title, owner) {
            lemma_encoding_len(
                EntryView { owner, title, content_hash, created_at: now, bump: salt },
            );
        }
    }
}

/// A created entry reads back as it was written: the record under its
/// address decodes to the entry, which holds the owner, title and content
/// hash that were supplied and the time of the request.
pub proof fn theorem_created_entry_reads_back(
    ledger: LedgerView,
    owner: Seq<u8>,
    funds: nat,
    now: int,
    title: Seq<char>,
    content_hash: Seq<u8>,
)
    requires
        owner.len() == 32,
        content_hash.len() == 32,
        i64::MIN <= now <= i64::MAX,
        creation(ledger, owner, funds, now, title, content_hash) is Ok,
    ensures
        ({
            let made = creation(ledger, owner, funds, now, title, content_hash)->Ok_0;
            &&& entry_at(made.ledger, made.address) == Some(made.entry)
            &&& made.entry.owner == owner
            &&& made.entry.title == title
            &&& made.entry.content_hash == content_hash
            &&& made.entry.created_at == now
            &&& entry_address(title, owner) == Some((made.address, made.entry.bump))
        }),
{
    let made = creation(ledger, owner, funds, now, title, content_hash)->Ok_0;
    lemma_encoding_len(made.entry);
    lemma_decoding_of_encoding(
        made.entry,
        zeros((RECORD_SPACE - made.entry.encoding().len()) as nat),
    );
}

/// Requests for different addresses do not get in each other's way: a
/// creation leaves the outcome of a request for another address as it was,
/// up to the records that the store holds afterwards, and the later
/// creation leaves the earlier record as it is.
pub proof fn theorem_other_addresses_are_untouched(
    ledger: LedgerView,
    owner: Seq<u8>,
    funds: nat,
    now: int,
    title: Seq<char>,
    content_hash: Seq<u8>,
    other_owner: Seq<u8>,
    other_funds: nat,
    other_now: int,
    other_title: Seq<char>,
    other_hash: Seq<u8>,
)
    requires
        creation(ledger, owner, funds, now, title, content_hash) is Ok,
        entry_address(other_title, other_owner) is Some,
        entry_address(other_title, other_owner)->Some_0.0 != entry_address(title, owner)->Some_0.0,
    ensures
        ({
            let first = creation(ledger, owner, funds, now, title, content_hash)->Ok_0;
            let alone = creation(
                ledger,
                other_owner,
                other_funds,
                other_now,
                other_title,
                other_hash,
            );
            let second = creation(
                first.ledger,
                other_owner,
                other_funds,
                other_now,
                other_title,
                other_hash,
            );
            match alone {
                Err(reason) => second == Err::<Creation, CreationError>(reason),
                Ok(made) => {
                    &&& second is Ok
                    &&& second->Ok_0.entry == made.entry
                    &&& second->Ok_0.address == made.address
                    &&& second->Ok_0.funds == made.funds
                    &&& second->Ok_0.ledger.records == first.ledger.records.insert(
                        made.address,
                        made.ledger.records[made.address],
                    )
                    &&& entry_at(second->Ok_0.ledger, first.address) == entry_at(
                        first.ledger,
                        first.address,
                    )
                },
            }
        }),
{
}

/// Two owners can each have an entry under one title. Where each of the
/// two requests would succeed on a store and the two addresses differ, the
/// second succeeds after the first as well, and both entries are then read
/// back from the store, each under its own address.
pub proof fn theorem_owners_do_not_conflict(
    ledger: LedgerView,
    title: Seq<char>,
    owner: Seq<u8>,
    funds: nat,
    now: int,
    content_hash: Seq<u8>,
    other_owner: Seq<u8>,
    other_funds: nat,
    other_now: int,
    other_hash: Seq<u8>,
)
    requires
        owner.len() == 32,
        content_hash.len() == 32,
        i64::MIN <= now <= i64::MAX,
        other_owner.len() == 32,
        other_hash.len() == 32,
        i64::MIN <= other_now <= i64::MAX,
        creation(ledger, owner, funds, now, title, content_hash) is Ok,
        creation(ledger, other_owner, other_funds, other_now, title, other_hash) is Ok,
        entry_address(title, owner)->Some_0.0 != entry_address(title, other_owner)->Some_0.0,
    ensures
        ({
            let first = creation(ledger, owner, funds, now, title, content_hash)->Ok_0;
            let second = creation(
                first.ledger,
                other_owner,
                other_funds,
                other_now,
                title,
                other_hash,
            );
            &&& second is Ok
            &&& second->Ok_0.entry.owner == other_owner
            &&& second->Ok_0.entry.title == title
            &&& entry_at(second->Ok_0.ledger, first.address) == Some(first.entry)
            &&& entry_at(second->Ok_0.ledger, second->Ok_0.address) == Some(second->Ok_0.entry)
        }),
{
    let first = creation(ledger, owner, funds, now, title, content_hash)->Ok_0;
    theorem_other_addresses_are_untouched(
        ledger,
        owner,
        funds,
        now,
        title,
        content_hash,
        other_owner,
        other_funds,
        other_now,
        title,
        other_hash,
    );
    theorem_created_entry_reads_back(ledger, owner, funds, now, title, content_hash);
    theorem_created_entry_reads_back(
        first.ledger,
        other_owner,
        other_funds,
        other_now,
        title,
        other_hash,
    );
}

/// Records are permanent: a creation neither changes nor removes what the
/// store held before, and it leaves the price of storage as it was. (A
/// request that fails leaves the whole store as it was.)
pub proof fn theorem_records_are_permanent(
    ledger: LedgerView,
    owner: Seq<u8>,
    funds: nat,
    now: int,
    title: Seq<char>,
    content_hash: Seq<u8>,
    address: Seq<u8>,
)
    requires
        ledger.records.contains_key(address),
        creation(ledger, owner, funds, now, title, content_hash) is Ok,
    ensures
        ({
            let made = creation(ledger, owner, funds, now, title, content_hash)->Ok_0;
            &&& made.ledger.records.contains_key(address)
            &&& made.ledger.records[address] == ledger.records[address]
            &&& made.ledger.storage_price == ledger.storage_price
        }),
{
}

} // verus!
