use vstd::prelude::*;

verus! {

/// The kind of application value a decode was asked for.
#[derive(Debug, Clone, Copy, PartialEq, Eq)]
pub enum Expected {
    I64,
    StringOrBase64,
    Bool,
    F64,
    Bytes,
    Timestamp,
    Uuid,
}

/// Why a result or a cell could not be turned into the requested shape.
#[derive(Debug, Clone, PartialEq, Eq)]
pub enum DecodeError {
    /// The cell holds a wire variant that the target type does not accept.
    TypeMismatch { expected: Expected, actual: crate::wire::WireKind },
    /// A scalar was asked of a result without rows.
    EmptyResult,
    /// A row holds no value at all.
    NoColumns,
    /// Exactly one row was expected.
    RowCount { rows: usize },
    /// The requested row does not exist.
    RowOutOfBounds { index: usize },
    /// A timestamp lies outside the representable calendar range.
    TimestampOutOfRange,
    /// A cell does not hold a well-formed unique identifier.
    InvalidUuid,
}

/// Errors of the client core.
#[derive(Debug)]
pub enum Error {
    /// An invariant was violated, e.g. an impossible transaction transition.
    Unexpected(String),
    /// The server answered with a failure status.
    Protocol(tonic::Status),
    /// The channel itself failed.
    Transport(String),
    /// A value supplied by the caller cannot be represented on the wire.
    InvalidInput(String),
    /// A result did not have the requested shape.
    Decode(DecodeError),
}

#[verifier::external_type_specification]
#[verifier::external_body]
pub struct ExStatus(tonic::Status);

} // verus!
