//! The failures that the library reports.

use vstd::prelude::*;

verus! {

/// Every way in which an operation of this library can fail.
#[derive(Clone, Copy, Debug, PartialEq, Eq, Structural)]
pub enum Error {
    /// The file system refused an operation on the cache.
    IoError,
    /// The transport failed while a resource was fetched.
    NetworkError,
    /// A response body was not UTF-8 text.
    DecodeError,
    /// A JSON document was malformed or lacked a required field.
    JsonError,
    /// A tabular resource was malformed.
    TabularFormatError,
    /// The task asks for something that is not implemented.
    UnsupportedFeature,
    /// A sequence of predictions does not have one entry per test row.
    LengthMismatch,
    /// The cache stayed locked by another writer for too long.
    LockTimeout,
    /// A measure was asked for its result before it could have one.
    DegenerateMeasure,
}

} // verus!
