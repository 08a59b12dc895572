//! The conditions under which the library refuses its input.
use vstd::prelude::*;

verus! {

/// Why an operation of the library failed.
#[derive(Debug, Clone, PartialEq, Eq)]
pub enum Error {
    /// A flashcard record without its four fields; holds the record.
    MalformedRecord(String),
    /// The datastore gave no record to choose from.
    NoCardsAvailable,
    /// A block declares fewer rows than its content has lines.
    InvalidBlockDimensions,
}

} // verus!
