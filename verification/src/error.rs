//! What can go wrong when an entry is created.

use vstd::prelude::*;

verus! {

/// Why a title was turned down.
#[derive(Clone, Copy, Debug, PartialEq, Eq, Structural)]
pub enum ErrorCode {
    /// The title has more characters than a record may hold.
    TitleTooLong,
    /// Reserved for a limit on the length of content; nothing reports it.
    ContentTooLong,
    /// The title is empty.
    TitleRequired,
}

/// Why the ledger refused to set storage aside.
#[derive(Clone, Copy, Debug, PartialEq, Eq, Structural)]
pub enum AllocationError {
    /// The bytes to store are more than the space asked for.
    SpaceTooSmall,
    /// The address already holds a record.
    DuplicateEntry,
    /// The payer cannot cover the cost of the storage.
    InsufficientFunds,
}

/// Why no entry was created.
#[derive(Clone, Copy, Debug, PartialEq, Eq, Structural)]
pub enum CreationError {
    /// The title broke a rule; the caller may try again with another title.
    Validation(ErrorCode),
    /// No valid address exists for this owner and title.
    NoAddress,
    /// The ledger refused the allocation.
    Allocation(AllocationError),
}

impl ErrorCode {
    /// The text shown for each code.
    pub open spec fn message_text(self) -> Seq<char> {
        match self {
            ErrorCode::TitleTooLong => "Title must be 50 characters or less"@,
            ErrorCode::ContentTooLong => "Content must be 1000 characters or less"@,
            ErrorCode::TitleRequired => "Title must be provided"@,
        }
    }

    /// A sentence for the caller that says what to change.
    pub fn message(&self) -> (text: &'static str)
        ensures
            text@ == self.message_text(),
    {
        match self {
            ErrorCode::TitleTooLong => "Title must be 50 characters or less",
            ErrorCode::ContentTooLong => "Content must be 1000 characters or less",
            ErrorCode::TitleRequired => "Title must be provided",
        }
    }
}

} // verus!
