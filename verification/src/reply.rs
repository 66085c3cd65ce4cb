//! What comes back from the query service, as far as a load looks at it.

use crate::error::LoadError;
use crate::statement::{diagnostic, diagnostic_text};
use vstd::prelude::*;

verus! {

/// The answer of the query service to one statement.
#[derive(Clone, Debug, PartialEq, Eq)]
pub enum QueryReply {
    /// The call failed; the text says why.
    Failed(String),
    /// The call went through.
    Answered {
        /// Whether the answer holds a column list.
        has_columns: bool,
        /// The number of rows in the answer's row list, where it holds one.
        row_count: Option<usize>,
    },
}

impl QueryReply {
    /// Why the call failed, if it failed.
    pub open spec fn failure(self) -> Option<Seq<char>> {
        match self {
            QueryReply::Failed(cause) => Some(cause@),
            QueryReply::Answered { .. } => None,
        }
    }

    /// Whether this answer to an existence check shows the table: the call went through, the
    /// answer holds a column list and a row list, and the row list is not empty.
    pub open spec fn shows_table(self) -> bool {
        match self {
            QueryReply::Failed(_) => false,
            QueryReply::Answered { has_columns, row_count } => has_columns && match row_count {
                Some(n) => n > 0,
                None => false,
            },
        }
    }

    /// Decides [`QueryReply::shows_table`].
    pub fn table_exists(&self) -> (exists: bool)
        ensures
            exists == self.shows_table(),
    {
        match self {
            QueryReply::Failed(_) => false,
            QueryReply::Answered { has_columns, row_count } => *has_columns && match row_count {
                Some(n) => *n > 0,
                None => false,
            },
        }
    }
}

/// How the dispatch of one batch ended.
#[derive(Clone, Debug, PartialEq, Eq)]
pub enum BatchOutcome {
    /// The query service took the statement.
    Acknowledged,
    /// The query service did not take it; the text says why.
    Failed(String),
}

impl View for BatchOutcome {
    type V = Option<Seq<char>>;

    /// Why the batch failed, if it failed.
    open spec fn view(&self) -> Option<Seq<char>> {
        match self {
            BatchOutcome::Acknowledged => None,
            BatchOutcome::Failed(cause) => Some(cause@),
        }
    }
}

impl BatchOutcome {
    /// The outcome that `reply` stands for. Nothing in the reply counts but whether the call
    /// failed.
    pub fn of_reply(reply: &QueryReply) -> (outcome: BatchOutcome)
        ensures
            outcome@ == reply.failure(),
    {
        match reply {
            QueryReply::Failed(cause) => BatchOutcome::Failed(cause.clone()),
            QueryReply::Answered { .. } => BatchOutcome::Acknowledged,
        }
    }

    /// The diagnostic for this outcome: none for a batch that was taken, else a line that
    /// names `table` and the cause.
    pub fn diagnostic(&self, table: &str) -> (line: Option<String>)
        ensures
            line.deep_view() == match self@ {
                None => None,
                Some(cause) => Some(diagnostic_text(table@, cause)),
            },
    {
        match self {
            BatchOutcome::Acknowledged => None,
            BatchOutcome::Failed(cause) => Some(diagnostic(table, cause.as_str())),
        }
    }

    /// The failure that this outcome stands for, if it is one.
    pub fn error(&self) -> (error: Option<LoadError>)
        ensures
            match error {
                None => self@ is None,
                Some(e) => self@ == Some(e.message@) && e.kind == crate::error::ErrorKind::Dispatch,
            },
    {
        match self {
            BatchOutcome::Acknowledged => None,
            BatchOutcome::Failed(cause) => Some(LoadError::dispatch(cause.clone())),
        }
    }
}

} // verus!
