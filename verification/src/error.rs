//! IndexedDB error kinds and the names they are reported under.

use vstd::prelude::*;

verus! {

/// An IndexedDB failure, by the DOM exception it maps to.
#[derive(Debug, Clone, PartialEq, Eq)]
pub enum IdbError {
    Constraint(String),
    TransactionInactive,
    DataClone(String),
    InvalidAccess(String),
    InvalidState(String),
    NotFound(String),
    ReadOnly,
    Abort,
    Syntax(String),
    Data(String),
    Version(String),
    QuotaExceeded { needed: u64, available: u64 },
    NotReadable(String),
    Unknown(String),
}

/// The DOM exception name of an error.
pub open spec fn spec_error_name(e: IdbError) -> Seq<char> {
    match e {
        IdbError::Constraint(_) => "ConstraintError"@,
        IdbError::TransactionInactive => "TransactionInactiveError"@,
        IdbError::DataClone(_) => "DataCloneError"@,
        IdbError::InvalidAccess(_) => "InvalidAccessError"@,
        IdbError::InvalidState(_) => "InvalidStateError"@,
        IdbError::NotFound(_) => "NotFoundError"@,
        IdbError::ReadOnly => "ReadOnlyError"@,
        IdbError::Abort => "AbortError"@,
        IdbError::Syntax(_) => "SyntaxError"@,
        IdbError::Data(_) => "DataError"@,
        IdbError::Version(_) => "VersionError"@,
        IdbError::QuotaExceeded { .. } => "QuotaExceededError"@,
        IdbError::NotReadable(_) => "NotReadableError"@,
        IdbError::Unknown(_) => "UnknownError"@,
    }
}

/// The message an error carries (empty for the kinds without one).
pub open spec fn message_of(e: IdbError) -> Seq<char> {
    match e {
        IdbError::Constraint(m) => m@,
        IdbError::DataClone(m) => m@,
        IdbError::InvalidAccess(m) => m@,
        IdbError::InvalidState(m) => m@,
        IdbError::NotFound(m) => m@,
        IdbError::Syntax(m) => m@,
        IdbError::Data(m) => m@,
        IdbError::Version(m) => m@,
        IdbError::NotReadable(m) => m@,
        IdbError::Unknown(m) => m@,
        _ => Seq::empty(),
    }
}

/// Short static error name (used for trace attributes and DOM exceptions).
pub fn error_name(error: &IdbError) -> (r: &'static str)
    ensures
        r@ == spec_error_name(*error),
{
    match error {
        IdbError::Constraint(_) => "ConstraintError",
        IdbError::TransactionInactive => "TransactionInactiveError",
        IdbError::DataClone(_) => "DataCloneError",
        IdbError::InvalidAccess(_) => "InvalidAccessError",
        IdbError::InvalidState(_) => "InvalidStateError",
        IdbError::NotFound(_) => "NotFoundError",
        IdbError::ReadOnly => "ReadOnlyError",
        IdbError::Abort => "AbortError",
        IdbError::Syntax(_) => "SyntaxError",
        IdbError::Data(_) => "DataError",
        IdbError::Version(_) => "VersionError",
        IdbError::QuotaExceeded { .. } => "QuotaExceededError",
        IdbError::NotReadable(_) => "NotReadableError",
        IdbError::Unknown(_) => "UnknownError",
    }
}

/// Error class with a dedicated lifecycle event.
#[derive(Debug, Clone, Copy, PartialEq, Eq, Structural)]
pub enum ErrorClass {
    /// Storage quota rejected the operation.
    Quota,
    /// Stored data failed integrity validation on read.
    Corruption,
}

/// Classifies a request error for dedicated lifecycle events.
pub fn classify_error(error: &IdbError) -> (r: Option<ErrorClass>)
    ensures
        r == (match *error {
            IdbError::QuotaExceeded { .. } => Some(ErrorClass::Quota),
            IdbError::NotReadable(_) => Some(ErrorClass::Corruption),
            _ => None,
        }),
{
    match error {
        IdbError::QuotaExceeded { .. } => Some(ErrorClass::Quota),
        IdbError::NotReadable(_) => Some(ErrorClass::Corruption),
        _ => None,
    }
}

} // verus!
