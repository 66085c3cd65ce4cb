//! The schema resolver: before any line is read it settles which table the load inserts into,
//! and creates that table where a schema was given and the table is not there.
//!
//! The resolver never talks to the query service itself. It hands out the statement to send
//! and takes the reply: [`Resolver::begin`], then [`Resolver::existence_query`] and
//! [`Resolver::on_existence`], then, where a table is to be created, [`Creation::statement`]
//! and [`Creation::on_created`]. A [`Target`] comes out of these steps and of nothing else.

use crate::error::{invalid_schema_message, table_not_found_text, ErrorKind, LoadError};
use crate::reply::QueryReply;
use crate::schema::{names_of, parsed, rendered, Schema};
use crate::statement::{
    column_reference, column_reference_text, creation_statement, creation_text, existence_query,
    existence_text,
};
use vstd::prelude::*;
use vstd::string::*;

verus! {

/// What a [`Target`] stands for.
pub struct TargetView {
    /// The name of the table.
    pub table: Seq<char>,
    /// How insert statements refer to the table.
    pub reference: Seq<char>,
}

/// The table of a load, resolved: its name, and the table reference that every insert
/// statement of the load uses.
pub struct Target {
    table: String,
    reference: String,
}

impl View for Target {
    type V = TargetView;

    closed spec fn view(&self) -> TargetView {
        TargetView { table: self.table@, reference: self.reference@ }
    }
}

impl Target {
    /// The name of the table.
    pub fn table(&self) -> (table: &str)
        ensures
            table@ == self@.table,
    {
        self.table.as_str()
    }

    /// How insert statements refer to the table.
    pub fn reference(&self) -> (reference: &str)
        ensures
            reference@ == self@.reference,
    {
        self.reference.as_str()
    }
}

/// The target of a table that was there already: insert statements name the bare table.
pub open spec fn existing_target(table: Seq<char>) -> TargetView {
    TargetView { table, reference: table }
}

/// The target of a table created from `columns`: insert statements name the table and, in
/// the order of the schema, its columns.
pub open spec fn created_target(table: Seq<char>, columns: Seq<(Seq<char>, Seq<char>)>)
    -> TargetView {
    TargetView { table, reference: column_reference_text(table, names_of(columns)) }
}

/// What follows from the reply to the existence check.
#[derive(Clone, Copy, Debug, PartialEq, Eq, Structural)]
pub enum Decision {
    /// The table is there: the load can begin.
    Ready,
    /// The reply does not show the table and a schema was given: create the table.
    Create,
    /// The check went through, the table is not there and no schema was given: the load
    /// fails for want of the table.
    TableNotFound,
    /// The check itself failed and no schema was given: the load fails with the cause that
    /// the reply gives.
    CheckFailed,
}

/// The decision that the reply to the existence check leads to. Of the reply only this
/// counts: whether it shows the table, and whether the call failed.
pub open spec fn decision_of(has_schema: bool, reply: QueryReply) -> Decision {
    if reply.shows_table() {
        Decision::Ready
    } else if has_schema {
        Decision::Create
    } else if reply.failure() is Some {
        Decision::CheckFailed
    } else {
        Decision::TableNotFound
    }
}

/// The existence check gives the same decision as often as it is run, as long as the query
/// service answers alike: the call goes through or fails both times, and both answers show
/// the same of the table.
pub proof fn lemma_existence_check_is_idempotent(
    has_schema: bool,
    first: QueryReply,
    second: QueryReply,
)
    requires
        first.shows_table() == second.shows_table(),
        first.failure() is Some == second.failure() is Some,
    ensures
        decision_of(has_schema, first) == decision_of(has_schema, second),
{
}

/// The first state of the resolver: the schema, where one was given, is parsed, and the
/// existence check is still to be made.
pub struct Resolver {
    table: String,
    schema: Option<Schema>,
}

/// A table that is being created: the creation statement is still to be answered.
pub struct Creation {
    statement: String,
    target: Target,
}

/// Where the resolver stands after the existence check.
pub enum Resolution {
    /// The table is there.
    Ready(Target),
    /// The table is to be created.
    Create(Creation),
    /// The load fails.
    Failed(LoadError),
}

impl Resolution {
    /// The decision that this resolution carries out.
    pub open spec fn decision(self) -> Decision {
        match self {
            Resolution::Ready(_) => Decision::Ready,
            Resolution::Create(_) => Decision::Create,
            Resolution::Failed(error) => if error.kind == ErrorKind::TableNotFound {
                Decision::TableNotFound
            } else {
                Decision::CheckFailed
            },
        }
    }
}

impl Resolver {
    /// The name of the table.
    pub closed spec fn table(&self) -> Seq<char> {
        self.table@
    }

    /// The columns of the schema, where one was given.
    pub closed spec fn columns(&self) -> Option<Seq<(Seq<char>, Seq<char>)>> {
        match self.schema {
            Some(schema) => Some(schema@),
            None => None,
        }
    }

    /// Begins the resolution for `table`. A schema description that is malformed fails the
    /// load here, before any statement exists that could be sent.
    pub fn begin(table: &str, schema: Option<&str>) -> (out: Result<Resolver, LoadError>)
        ensures
            match out {
                Ok(resolver) => resolver.table() == table@ && match schema {
                    Some(text) => parsed(text@) is Some && resolver.columns() == parsed(text@),
                    None => resolver.columns() is None,
                },
                Err(error) => schema is Some && parsed(schema->0@) is None && error.kind
                    == ErrorKind::InvalidSchema && error.message@ == invalid_schema_message(
                    table@,
                ),
            },
    {
        match schema {
            Some(text) => match Schema::from_str(text) {
                Ok(parsed) => Ok(Resolver { table: String::from_str(table), schema: Some(parsed) }),
                Err(_) => Err(LoadError::invalid_schema(table)),
            },
            None => Ok(Resolver { table: String::from_str(table), schema: None }),
        }
    }

    /// The statement of the existence check.
    pub fn existence_query(&self) -> (statement: String)
        ensures
            statement@ == existence_text(self.table()),
    {
        existence_query(self.table.as_str())
    }

    /// Takes the reply to the existence check. A table that is there is the target as it is,
    /// and a schema, if one was given, is ignored. Where the reply does not show the table, a
    /// schema has the table created. Without a schema the load fails: with the cause that the
    /// reply gives, unchanged, where the check itself failed, and for want of the table where
    /// the check went through.
    pub fn on_existence(self, reply: &QueryReply) -> (out: Resolution)
        ensures
            out.decision() == decision_of(self.columns() is Some, *reply),
            match out {
                Resolution::Ready(target) => target@ == existing_target(self.table()),
                Resolution::Create(creation) => creation.statement_text() == creation_text(
                    self.table(),
                    rendered(self.columns()->0),
                ) && creation.target() == created_target(self.table(), self.columns()->0),
                Resolution::Failed(error) => match reply.failure() {
                    Some(cause) => error.kind == ErrorKind::ExistenceCheck && error.message@
                        == cause,
                    None => error.kind == ErrorKind::TableNotFound && error.message@
                        == table_not_found_text(self.table()),
                },
            },
    {
        if reply.table_exists() {
            let reference = self.table.clone();
            Resolution::Ready(Target { table: self.table, reference })
        } else {
            match self.schema {
                Some(schema) => {
                    let columns = schema.to_string();
                    let names = schema.column_names();
                    let statement = creation_statement(self.table.as_str(), columns.as_str());
                    let reference = column_reference(self.table.as_str(), names.as_str());
                    Resolution::Create(
                        Creation { statement, target: Target { table: self.table, reference } },
                    )
                },
                None => match reply {
                    QueryReply::Failed(cause) => Resolution::Failed(
                        LoadError::existence_check(cause.clone()),
                    ),
                    QueryReply::Answered { .. } => Resolution::Failed(
                        LoadError::table_not_found(self.table.as_str()),
                    ),
                },
            }
        }
    }
}

impl Creation {
    /// The text of the creation statement.
    pub closed spec fn statement_text(&self) -> Seq<char> {
        self.statement@
    }

    /// The target that the load has once the table is created.
    pub closed spec fn target(&self) -> TargetView {
        self.target@
    }

    /// The creation statement.
    pub fn statement(&self) -> (statement: &str)
        ensures
            statement@ == self.statement_text(),
    {
        self.statement.as_str()
    }

    /// Takes the reply to the creation statement. A statement that went through gives the
    /// target; one that failed fails the load with the cause that the reply gives.
    pub fn on_created(self, reply: &QueryReply) -> (out: Result<Target, LoadError>)
        ensures
            match out {
                Ok(target) => reply.failure() is None && target@ == self.target(),
                Err(error) => reply.failure() == Some(error.message@) && error.kind
                    == ErrorKind::TableCreation,
            },
    {
        match reply {
            QueryReply::Failed(cause) => Err(LoadError::table_creation(cause.clone())),
            QueryReply::Answered { .. } => Ok(self.target),
        }
    }
}

} // verus!
