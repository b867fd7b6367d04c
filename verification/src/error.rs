//! Typed failures of the storage engine.
//!
//! Every operation reports a failure as a value of [`ErrorKind`]; detected
//! database corruption (an impossible counter, a row that must exist but does
//! not) is the distinct [`ErrorKind::InvariantViolation`] category, still a
//! typed failure that a caller can log and treat as non-recoverable.

use vstd::prelude::*;

verus! {

/// Ways a record handed to the store can be rejected before it is written.
#[derive(Debug, Clone, PartialEq)]
pub enum InvalidRecord {
    /// The value is not an object made of named fields.
    NotJsonObject,
    /// The named field is required but absent.
    MissingRequiredField(String),
    /// The named field holds a value of the wrong kind (field, expected kind).
    WrongFieldType(String, String),
    /// The named field must parse as a valid URL.
    NotUrl(String),
    /// The named field is out of the bounds the schema requires.
    OutOfBounds(String),
    /// The named field is not a valid record set.
    InvalidRecordSet(String),
    /// The given value is not a valid guid.
    InvalidGuid(String),
    /// The named field is invalid for another reason (field, description).
    InvalidField(String, String),
    /// A record with the given guid already exists.
    IdNotUnique,
    /// The record collides with an existing record on the `dedupe_on` fields.
    Duplicate,
}

/// The error type every storage operation returns on failure.
#[derive(Debug, Clone, PartialEq)]
pub enum ErrorKind {
    /// A persisted sync-status byte holds an illegal value.
    BadSyncStatus(u8),
    /// The native schema's name does not match the stored collection name
    /// (native name, stored name).
    SchemaNameMatchError(String, String),
    /// The record handed in was rejected by validation.
    InvalidRecord(InvalidRecord),
    /// No record with the given guid exists, where one was required.
    NoSuchRecord(String),
    /// A stored local record could not be converted to native form.
    LocalToNativeError(String),
    /// An error with no more specific category.
    Unspecified(String),
    /// The operation was cancelled through an interrupt handle.
    Interrupted,
    /// The requested schema transition is intentionally unsupported.
    NotYetImplemented(String),
    /// Stored state violates an internal invariant; the store should be
    /// treated as corrupt and non-recoverable.
    InvariantViolation(String),
}

impl ErrorKind {
    /// True when the failure reports detected corruption rather than a
    /// recoverable condition.
    pub fn is_corruption(&self) -> (r: bool)
        ensures
            r == (self matches ErrorKind::InvariantViolation(_)),
    {
        match self {
            ErrorKind::InvariantViolation(_) => true,
            _ => false,
        }
    }
}

} // verus!
