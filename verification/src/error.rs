//! Error type of the library.

use vstd::prelude::*;

verus! {

/// Makes `matrix_sdk::ruma::IdParseError` known to Verus as an opaque type.
#[verifier::external_type_specification]
#[verifier::external_body]
pub struct ExIdParseError(matrix_sdk::ruma::IdParseError);

/// Errors that the library's own operations report.
#[derive(Debug)]
pub enum ConstellationError {
    /// A Matrix identifier parsing error (invalid user ID, room alias, etc.).
    MatrixId(matrix_sdk::ruma::IdParseError),
    /// An error in agent configuration (missing or invalid fields).
    Config(String),
    /// A connection-level error (login failure, client build error, etc.).
    Connection(String),
    /// A room operation error (join failure, room not found, etc.).
    Room(String),
    /// A message sending or formatting error.
    Message(String),
    /// A task lifecycle error (task not found, invalid state transition, etc.).
    Task(String),
    /// A URL parsing error.
    UrlParse(url::ParseError),
}

/// Result type of the library's fallible operations.
pub type Result<T> = std::result::Result<T, ConstellationError>;

} // verus!
