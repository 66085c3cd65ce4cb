//! A streaming bulk loader: delimited text goes in line by line, bounded batches of it come
//! out as insert statements for a remote query service.
//!
//! The library decides and computes; it performs no input or output of its own. A caller reads
//! the source, hands over lines and the replies of the query service, and carries out what the
//! library answers:
//!
//! 1. [`source::SourceSpec::resolve`] tells where the lines come from.
//! 2. [`resolver::Resolver`] settles the table: it checks that the table exists, or creates it
//!    from the schema that [`schema::Schema`] parses.
//! 3. [`loader::Loader`] runs the batch loop: [`batcher::Batcher`] discards the header and
//!    groups the lines, [`transform::transform`] turns a batch into a value list, and
//!    [`statement::insert_statement`] makes the statement of it. A batch that the query
//!    service does not take is recorded and reported, and the loop goes on.

pub mod batcher;
pub mod error;
pub mod format;
pub mod loader;
pub mod reply;
pub mod request;
pub mod resolver;
pub mod schema;
pub mod source;
pub mod statement;
pub mod text;
pub mod transform;
