//! The ways in which an operation of this crate can fail.

use vstd::prelude::*;

verus! {

/// Why an operation failed.
#[derive(Clone, Copy, Debug, PartialEq, Eq, Structural)]
pub enum RowIDError {
    /// The input is shorter than the timestamp prefix.
    EncodedLength,
    /// A symbol of the timestamp prefix is not in the alphabet.
    InvalidEncoded,
    /// The point in time lies before the epoch.
    EpochUnderflow,
    /// The timestamp does not fit the timestamp prefix, or 64 bits.
    TimestampOverflow,
    /// The alphabet has fewer than two symbols.
    CharListLength,
    /// The alphabet holds a symbol twice.
    CharListDuplicate,
}

impl RowIDError {
    /// The message of each error.
    pub open spec fn message(self) -> Seq<char> {
        match self {
            RowIDError::EncodedLength => "Encoded is too short"@,
            RowIDError::InvalidEncoded => "Encoded is not valid"@,
            RowIDError::EpochUnderflow => "System time is before the epoch"@,
            RowIDError::TimestampOverflow => "Timestamp is out of range"@,
            RowIDError::CharListLength => "Char list must hold at least 2 characters"@,
            RowIDError::CharListDuplicate => "Char list must not hold a character twice"@,
        }
    }

    /// The error's message.
    pub fn as_str(&self) -> (text: &'static str)
        ensures
            text@ == self.message(),
    {
        match self {
            RowIDError::EncodedLength => "Encoded is too short",
            RowIDError::InvalidEncoded => "Encoded is not valid",
            RowIDError::EpochUnderflow => "System time is before the epoch",
            RowIDError::TimestampOverflow => "Timestamp is out of range",
            RowIDError::CharListLength => "Char list must hold at least 2 characters",
            RowIDError::CharListDuplicate => "Char list must not hold a character twice",
        }
    }

    /// The error's message as an owned string.
    pub fn to_string(&self) -> (text: String)
        ensures
            text@ == self.message(),
    {
        self.as_str().to_owned()
    }
}

} // verus!
