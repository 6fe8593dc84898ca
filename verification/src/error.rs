//! The error model: one tagged error wrapping every failure the library can
//! report.
use vstd::prelude::*;

use crate::schema::{Name, Schema};
use crate::types::Value;

verus! {

/// An error of this library. The boxed [`ErrorKind`] says what went wrong.
#[derive(Debug, Clone)]
pub struct Error(Box<ErrorKind>);

/// Builds an [`Error`] from its kind.
pub fn error(kind: ErrorKind) -> (r: Error)
    ensures
        r.kind_model() == kind,
{
    Error(Box::new(kind))
}

impl Error {
    /// The kind carried by this error, as a mathematical value.
    pub closed spec fn kind_model(&self) -> ErrorKind {
        *self.0
    }

    /// Return the specific type of this error.
    pub fn kind(&self) -> (r: &ErrorKind)
        ensures
            *r == self.kind_model(),
    {
        &self.0
    }

    /// Unwrap this error into its underlying type.
    pub fn into_kind(self) -> (r: ErrorKind)
        ensures
            r == self.kind_model(),
    {
        *self.0
    }
}

/// The specific type of an [`Error`].
#[derive(Debug, Clone)]
pub enum ErrorKind {
    /// An I/O failure, described by its message.
    Io(String),
    /// A schema-resolution failure.
    Resolution(ResolutionError),
    /// A failure while driving the decoding protocol.
    Deserialization(String),
    /// A failure while driving the encoding protocol.
    Serialization(String),
    /// A value that does not fit its schema.
    Validation(String),
    /// A general failure.
    Generic(String),
    /// A failure while decoding the binary wire format.
    Decode(String),
    /// A failure while parsing a schema document.
    SchemaParsing(String),
    /// An allocation failure.
    Allocation(String),
}

/// A failure while resolving a value built under a writer schema against a
/// reader schema.
#[derive(Debug, Clone, PartialEq)]
pub enum ResolutionError {
    /// Bytes promoted to a string were not valid UTF-8.
    BytesToStringUtf8Error,
    /// The writer and reader schemas are incompatible; both are carried.
    IncompatibleSchema(Schema, Schema),
    /// The value cannot be made to conform to the reader schema.
    IncompatibleData(Value),
    /// A union value selects an alternative the schema does not have.
    UnexpectedVariant(usize),
    /// A field of the named record is missing; its position is carried.
    RecordFieldMissing(Name, usize),
    /// A record field is declared but no value could be resolved for it.
    RecordFieldValueMissing(String),
    /// A schema-declared default value that cannot be used.
    InvalidDefaultValue(serde_json::Value),
    /// An unclassified resolution failure, described by its message.
    Generic(String),
}

} // verus!
