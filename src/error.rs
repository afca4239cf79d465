//! The failures that the operations report to their caller.
use vstd::prelude::*;

verus! {

/// A recoverable failure of one operation. Misuse of a transaction handle is
/// no such failure: it is ruled out by the slot table's preconditions.
#[derive(Debug, PartialEq, Eq)]
pub enum DbError {
    /// The connection url has no `scheme:` part, or names an unsupported scheme.
    InvalidDbUrl(String),
    /// An operation named a database with no open pool.
    DatabaseNotLoaded(String),
    /// A pending migration set could not be applied.
    MigrationFailure(String),
    /// The SQL engine reported an error (syntax, constraint, I/O).
    BackendError(String),
    /// A result cell has a type with no output representation.
    DecodeFailure(String),
}

} // verus!
