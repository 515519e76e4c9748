//! The reasons for which the table turns a request down.

use vstd::prelude::*;

verus! {

/// The rule that a proposed username or password breaks.
#[derive(Debug, Clone, Copy, PartialEq, Eq, Structural)]
pub enum Reason {
    /// The username holds a character outside ASCII.
    UserNotAscii,
    /// The username has fewer than 4 characters.
    UserTooShort,
    /// The username has more than 14 characters.
    UserTooLong,
    /// The password holds a character outside ASCII.
    PassNotAscii,
    /// The password has fewer than 8 characters.
    PassTooShort,
    /// The password has more than 24 characters.
    PassTooLong,
}

/// Why an operation on the table failed.
#[derive(Debug, Clone, Copy, PartialEq, Eq, Structural)]
pub enum TableError {
    /// The credentials break one of the validation rules.
    Validation(Reason),
    /// An account with this username is already stored.
    UsernameTaken,
    /// The key is shorter than four bytes, or its prefix decodes to a value
    /// that no bucket stands for.
    OutOfRange,
    /// The bytes or the snapshot handed in do not have the expected shape.
    Deserialization,
}

/// The text shown for each broken rule.
pub open spec fn reason_text(reason: Reason) -> Seq<char> {
    match reason {
        Reason::UserNotAscii => "username must be pure ASCII"@,
        Reason::UserTooShort => "username must be longer than 3 characters"@,
        Reason::UserTooLong => "username must be shorter than 15 characters"@,
        Reason::PassNotAscii => "password must be pure ASCII"@,
        Reason::PassTooShort => "password must be longer than 7 characters"@,
        Reason::PassTooLong => "password must be shorter than 25 characters"@,
    }
}

/// The text shown for each error.
pub open spec fn error_text(error: TableError) -> Seq<char> {
    match error {
        TableError::Validation(reason) => reason_text(reason),
        TableError::UsernameTaken => "username is already taken"@,
        TableError::OutOfRange => "key is out of the hash range"@,
        TableError::Deserialization => "malformed data"@,
    }
}

impl Reason {
    /// The human-readable statement of the broken rule.
    pub fn message(&self) -> (text: &'static str)
        ensures
            text@ == reason_text(*self),
    {
        match self {
            Reason::UserNotAscii => "username must be pure ASCII",
            Reason::UserTooShort => "username must be longer than 3 characters",
            Reason::UserTooLong => "username must be shorter than 15 characters",
            Reason::PassNotAscii => "password must be pure ASCII",
            Reason::PassTooShort => "password must be longer than 7 characters",
            Reason::PassTooLong => "password must be shorter than 25 characters",
        }
    }
}

impl TableError {
    /// The human-readable statement of the failure.
    pub fn message(&self) -> (text: &'static str)
        ensures
            text@ == error_text(*self),
    {
        match self {
            TableError::Validation(reason) => reason.message(),
            TableError::UsernameTaken => "username is already taken",
            TableError::OutOfRange => "key is out of the hash range",
            TableError::Deserialization => "malformed data",
        }
    }
}

} // verus!
