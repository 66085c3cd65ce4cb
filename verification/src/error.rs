//! What can end a load, or a batch of it.

use vstd::prelude::*;
use vstd::string::*;

verus! {

/// The kinds of failure.
#[derive(Clone, Copy, Debug, PartialEq, Eq, Structural)]
pub enum ErrorKind {
    /// The source cannot be read: no such path, no permission, or the fetch failed.
    Source,
    /// The schema description is malformed.
    InvalidSchema,
    /// The existence check itself failed: the query service gave no answer to it.
    ExistenceCheck,
    /// No schema was given and the table is not there.
    TableNotFound,
    /// The query service did not take the statement that creates the table.
    TableCreation,
    /// The query service did not take the insert statement of one batch.
    Dispatch,
    /// Reading the next line failed.
    Stream,
}

impl ErrorKind {
    /// Whether a failure of this kind ends the load: every kind does but `Dispatch`, which
    /// costs one batch and lets the load go on.
    pub open spec fn fatal(self) -> bool {
        self != ErrorKind::Dispatch
    }

    /// Decides [`ErrorKind::fatal`].
    pub fn is_fatal(self) -> (fatal: bool)
        ensures
            fatal == self.fatal(),
    {
        match self {
            ErrorKind::Dispatch => false,
            _ => true,
        }
    }
}

/// A failure: its kind, and the text shown for it.
#[derive(Clone, Debug, PartialEq, Eq)]
pub struct LoadError {
    pub kind: ErrorKind,
    pub message: String,
}

/// The text shown where `table` does not exist.
pub open spec fn table_not_found_text(table: Seq<char>) -> Seq<char> {
    "table "@ + table + " not found"@
}

/// The text shown where the schema given for `table` is malformed.
pub open spec fn invalid_schema_message(table: Seq<char>) -> Seq<char> {
    table + " schema is not in valid format"@
}

impl LoadError {
    /// The source cannot be read, for the reason `cause`.
    pub fn source(cause: String) -> (error: LoadError)
        ensures
            error.kind == ErrorKind::Source,
            error.message@ == cause@,
    {
        LoadError { kind: ErrorKind::Source, message: cause }
    }

    /// Reading the next line failed, for the reason `cause`.
    pub fn stream(cause: String) -> (error: LoadError)
        ensures
            error.kind == ErrorKind::Stream,
            error.message@ == cause@,
    {
        LoadError { kind: ErrorKind::Stream, message: cause }
    }

    /// The schema given for `table` is malformed.
    pub fn invalid_schema(table: &str) -> (error: LoadError)
        ensures
            error.kind == ErrorKind::InvalidSchema,
            error.message@ == invalid_schema_message(table@),
    {
        let mut message = String::from_str(table);
        message.append(" schema is not in valid format");
        LoadError { kind: ErrorKind::InvalidSchema, message }
    }

    /// The existence check failed, for the reason `cause`, which is shown as it came.
    pub fn existence_check(cause: String) -> (error: LoadError)
        ensures
            error.kind == ErrorKind::ExistenceCheck,
            error.message@ == cause@,
    {
        LoadError { kind: ErrorKind::ExistenceCheck, message: cause }
    }

    /// `table` does not exist.
    pub fn table_not_found(table: &str) -> (error: LoadError)
        ensures
            error.kind == ErrorKind::TableNotFound,
            error.message@ == table_not_found_text(table@),
    {
        let mut message = String::from_str("table ");
        message.append(table);
        message.append(" not found");
        LoadError { kind: ErrorKind::TableNotFound, message }
    }

    /// The query service did not take the creation statement, for the reason `cause`.
    pub fn table_creation(cause: String) -> (error: LoadError)
        ensures
            error.kind == ErrorKind::TableCreation,
            error.message@ == cause@,
    {
        LoadError { kind: ErrorKind::TableCreation, message: cause }
    }

    /// The query service did not take an insert statement, for the reason `cause`.
    pub fn dispatch(cause: String) -> (error: LoadError)
        ensures
            error.kind == ErrorKind::Dispatch,
            error.message@ == cause@,
    {
        LoadError { kind: ErrorKind::Dispatch, message: cause }
    }
}

} // verus!
