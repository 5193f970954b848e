//! The rules that a title must meet before anything is stored.

use vstd::prelude::*;
use vstd::string::StrSliceExecFns;
use crate::error::ErrorCode;

verus! {

/// The greatest number of characters a title may have.
pub const TITLE_MAX_LEN: usize = 50;

/// A title is acceptable when it has at least one character and at most
/// `TITLE_MAX_LEN`, counted in Unicode scalar values.
pub open spec fn title_ok(title: Seq<char>) -> bool {
    1 <= title.len() <= TITLE_MAX_LEN
}

/// What validation answers for a title, as a function of its characters.
pub open spec fn title_verdict(title: Seq<char>) -> Result<(), ErrorCode> {
    if title.len() == 0 {
        Err(ErrorCode::TitleRequired)
    } else if title.len() > TITLE_MAX_LEN {
        Err(ErrorCode::TitleTooLong)
    } else {
        Ok(())
    }
}

/// Checks a title against the presence and length rules.
pub fn validate_title(title: &str) -> (verdict: Result<(), ErrorCode>)
    ensures
        verdict == title_verdict(title@),
        verdict is Ok <==> title_ok(title@),
{
    let count: usize = title.unicode_len();
    if count == 0 {
        Err(ErrorCode::TitleRequired)
    } else if count > TITLE_MAX_LEN {
        Err(ErrorCode::TitleTooLong)
    } else {
        Ok(())
    }
}

} // verus!
