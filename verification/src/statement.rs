//! The statements that a load sends to the query service.

use vstd::prelude::*;
use vstd::string::*;

verus! {

/// The text of the statement that asks whether `table` exists.
pub open spec fn existence_text(table: Seq<char>) -> Seq<char> {
    "SHOW TABLES LIKE '"@ + table + "';"@
}

/// The text of the statement that creates `table` with the rendered column list `columns`.
pub open spec fn creation_text(table: Seq<char>, columns: Seq<char>) -> Seq<char> {
    "CREATE TABLE "@ + table + "("@ + columns + ") Engine = Fuse;"@
}

/// The text that names `table` together with its columns in an insert statement.
pub open spec fn column_reference_text(table: Seq<char>, names: Seq<char>) -> Seq<char> {
    table + " ("@ + names + ")"@
}

/// The text of the statement that inserts the value list `values` into `table_ref`.
pub open spec fn insert_text(table_ref: Seq<char>, values: Seq<char>) -> Seq<char> {
    "INSERT INTO "@ + table_ref + " VALUES "@ + values + ";"@
}

/// The text of the diagnostic for a batch that `table` did not take.
pub open spec fn diagnostic_text(table: Seq<char>, cause: Seq<char>) -> Seq<char> {
    "cannot insert data into "@ + table + ", error: "@ + cause
}

/// The statement that asks whether `table` exists.
pub fn existence_query(table: &str) -> (statement: String)
    ensures
        statement@ == existence_text(table@),
{
    let mut statement = String::from_str("SHOW TABLES LIKE '");
    statement.append(table);
    statement.append("';");
    statement
}

/// The statement that creates `table` with the rendered column list `columns`.
pub fn creation_statement(table: &str, columns: &str) -> (statement: String)
    ensures
        statement@ == creation_text(table@, columns@),
{
    let mut statement = String::from_str("CREATE TABLE ");
    statement.append(table);
    statement.append("(");
    statement.append(columns);
    statement.append(") Engine = Fuse;");
    statement
}

/// The table reference that names `table` together with its columns.
pub fn column_reference(table: &str, names: &str) -> (table_ref: String)
    ensures
        table_ref@ == column_reference_text(table@, names@),
{
    let mut table_ref = String::from_str(table);
    table_ref.append(" (");
    table_ref.append(names);
    table_ref.append(")");
    table_ref
}

/// The statement that inserts the value list `values` into `table_ref`.
pub fn insert_statement(table_ref: &str, values: &str) -> (statement: String)
    ensures
        statement@ == insert_text(table_ref@, values@),
{
    let mut statement = String::from_str("INSERT INTO ");
    statement.append(table_ref);
    statement.append(" VALUES ");
    statement.append(values);
    statement.append(";");
    statement
}

/// The diagnostic for a batch that `table` did not take.
pub fn diagnostic(table: &str, cause: &str) -> (line: String)
    ensures
        line@ == diagnostic_text(table@, cause@),
{
    let mut line = String::from_str("cannot insert data into ");
    line.append(table);
    line.append(", error: ");
    line.append(cause);
    line
}

} // verus!
