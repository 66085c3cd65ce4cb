//! The load request: what one load is asked to do.

use crate::batcher::{BatcherState, DEFAULT_BATCH_SIZE};
use crate::error::{invalid_schema_message, ErrorKind, LoadError};
use crate::loader::{Loader, LoaderState};
use crate::resolver::{Resolver, Target};
use crate::schema::parsed;
use crate::source::{SourceSpec, SourceView};
use vstd::prelude::*;
use vstd::string::*;

verus! {

/// What a [`LoadRequest`] stands for.
pub struct LoadRequestView {
    /// Where the lines come from.
    pub source: SourceView,
    /// The name of the table that takes them.
    pub target_table: Seq<char>,
    /// The schema description, where one was given.
    pub schema: Option<Seq<char>>,
    /// The number of leading lines that are no data.
    pub header_skip_count: nat,
    /// The cap on the lines of one batch.
    pub batch_size: nat,
}

/// The descriptor of one load. It is made once and read from then on.
pub struct LoadRequest {
    source: SourceSpec,
    target_table: String,
    schema: Option<String>,
    header_skip_count: usize,
    batch_size: usize,
}

impl View for LoadRequest {
    type V = LoadRequestView;

    closed spec fn view(&self) -> LoadRequestView {
        LoadRequestView {
            source: self.source@,
            target_table: self.target_table@,
            schema: self.schema.deep_view(),
            header_skip_count: self.header_skip_count as nat,
            batch_size: self.batch_size as nat,
        }
    }
}

impl LoadRequest {
    #[verifier::type_invariant]
    spec fn inv(self) -> bool {
        self.batch_size >= 1
    }

    /// The request to load `source` into `target_table`, with no schema, no header and the
    /// default batch size.
    pub fn new(source: SourceSpec, target_table: String) -> (request: LoadRequest)
        ensures
            request@ == (LoadRequestView {
                source: source@,
                target_table: target_table@,
                schema: None,
                header_skip_count: 0,
                batch_size: DEFAULT_BATCH_SIZE as nat,
            }),
    {
        LoadRequest {
            source,
            target_table,
            schema: None,
            header_skip_count: 0,
            batch_size: DEFAULT_BATCH_SIZE,
        }
    }

    /// The same request with the schema description `schema`.
    pub fn with_schema(self, schema: String) -> (request: LoadRequest)
        ensures
            request@ == (LoadRequestView { schema: Some(schema@), ..self@ }),
    {
        proof {
            use_type_invariant(&self);
        }
        LoadRequest {
            source: self.source,
            target_table: self.target_table,
            schema: Some(schema),
            header_skip_count: self.header_skip_count,
            batch_size: self.batch_size,
        }
    }

    /// The same request with `header_skip_count` leading lines to discard.
    pub fn with_header_skip(self, header_skip_count: usize) -> (request: LoadRequest)
        ensures
            request@ == (LoadRequestView { header_skip_count: header_skip_count as nat, ..self@ }),
    {
        proof {
            use_type_invariant(&self);
        }
        LoadRequest {
            source: self.source,
            target_table: self.target_table,
            schema: self.schema,
            header_skip_count,
            batch_size: self.batch_size,
        }
    }

    /// The same request with batches of up to `batch_size` lines.
    pub fn with_batch_size(self, batch_size: usize) -> (request: LoadRequest)
        requires
            batch_size >= 1,
        ensures
            request@ == (LoadRequestView { batch_size: batch_size as nat, ..self@ }),
    {
        LoadRequest {
            source: self.source,
            target_table: self.target_table,
            schema: self.schema,
            header_skip_count: self.header_skip_count,
            batch_size,
        }
    }

    /// Where the lines come from.
    pub fn source(&self) -> (source: &SourceSpec)
        ensures
            source@ == self@.source,
    {
        &self.source
    }

    /// The name of the table that takes the lines.
    pub fn target_table(&self) -> (table: &str)
        ensures
            table@ == self@.target_table,
    {
        self.target_table.as_str()
    }

    /// The number of leading lines that are no data.
    pub fn header_skip_count(&self) -> (n: usize)
        ensures
            n == self@.header_skip_count,
    {
        self.header_skip_count
    }

    /// The cap on the lines of one batch; it is positive.
    pub fn batch_size(&self) -> (n: usize)
        ensures
            n == self@.batch_size,
            n >= 1,
    {
        proof {
            use_type_invariant(self);
        }
        self.batch_size
    }

    /// Begins the resolution of the table of this request. A schema description that is
    /// malformed fails the load here.
    pub fn resolver(&self) -> (out: Result<Resolver, LoadError>)
        ensures
            match out {
                Ok(resolver) => resolver.table() == self@.target_table && match self@.schema {
                    Some(text) => parsed(text) is Some && resolver.columns() == parsed(text),
                    None => resolver.columns() is None,
                },
                Err(error) => self@.schema is Some && parsed(self@.schema->0) is None
                    && error.kind == ErrorKind::InvalidSchema && error.message@
                    == invalid_schema_message(self@.target_table),
            },
    {
        match &self.schema {
            Some(text) => Resolver::begin(self.target_table.as_str(), Some(text.as_str())),
            None => Resolver::begin(self.target_table.as_str(), None),
        }
    }

    /// The batch loop of this request for the resolved table `target`.
    pub fn loader(&self, target: Target) -> (loader: Loader)
        ensures
            loader@ == (LoaderState {
                target: target@,
                batcher: BatcherState::start(self@.header_skip_count, self@.batch_size),
                outcomes: Seq::empty(),
            }),
    {
        proof {
            use_type_invariant(self);
        }
        Loader::new(target, self.header_skip_count, self.batch_size)
    }
}

} // verus!
