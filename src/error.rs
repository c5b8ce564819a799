//! The two fatal failures of a decode.

use vstd::prelude::*;

verus! {

#[derive(Debug, Clone, Copy, PartialEq, Eq, Structural)]
pub enum BookmarkError {
    /// The buffer is shorter than the fixed header or does not start with the magic.
    BadHeader,
    /// The table of contents or a record it points to cannot be read.
    BadBookmarkData,
}

impl BookmarkError {
    /// A human-readable description of the failure.
    pub fn message(&self) -> (r: String)
        ensures
            *self == BookmarkError::BadHeader ==> r@ == "Incorrect bookmark header"@,
            *self == BookmarkError::BadBookmarkData ==> r@ == "Failed to parse bookmark data"@,
    {
        match self {
            BookmarkError::BadHeader => "Incorrect bookmark header".to_owned(),
            BookmarkError::BadBookmarkData => "Failed to parse bookmark data".to_owned(),
        }
    }
}

} // verus!
