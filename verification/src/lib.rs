//! Journal entries: short titled records, each stored once at an address
//! derived from its owner and its title.
//!
//! An owner creates an entry with `create_journal_entry`. The title is
//! checked (`title`), the address is derived from the title's fingerprint
//! and the owner (`address`), and a record of fixed size is allocated and
//! filled under that address (`ledger`, `entry`). Nothing can be created
//! twice under one address, and nothing that was created changes. An entry
//! is found again by deriving its address (`find_journal_entry`). The
//! module `guarantees` proves what this gives on every store; the module
//! `trusted` holds the few calls that are believed without proof.

pub mod address;
pub mod create;
pub mod entry;
pub mod error;
pub mod guarantees;
pub mod ledger;
pub mod title;
pub mod trusted;
pub mod wire;

pub use address::{derive_entry_address, entry_address_from_salt, title_fingerprint};
pub use create::{
    create_journal_entry, create_journal_entry_at, find_journal_entry, read_journal_entry,
    CreateEntry,
};
pub use entry::JournalEntry;
pub use error::{AllocationError, CreationError, ErrorCode};
pub use ledger::Ledger;
pub use title::validate_title;
