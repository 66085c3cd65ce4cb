//! The batch loop of a load: lines come in, insert statements go out, replies are recorded.
//!
//! A [`Loader`] neither reads nor sends. Its caller reads the source and hands each line to
//! [`Loader::on_line`] and the end of the source to [`Loader::on_end`]; where either answers
//! with a statement, the caller sends it and hands the reply to [`Loader::on_reply`], which
//! answers with the diagnostic to show, if the batch failed. A failed batch never stops the
//! loop.

use crate::batcher::{after_header, batch_count, batches_of, Batcher, BatcherState};
use crate::batcher::{lemma_drained_count, lemma_header_covers_source};
use crate::reply::{BatchOutcome, QueryReply};
use crate::resolver::{Target, TargetView};
use crate::statement::{diagnostic_text, insert_statement, insert_text};
use crate::text::{is_blank, lemma_trimmed_empty_iff_blank};
use crate::transform::{fragments_of, is_value_list, transform};
use vstd::prelude::*;

verus! {

/// A batch in which every line is blank.
pub open spec fn is_blank_batch(batch: Seq<Seq<char>>) -> bool {
    forall|i: int| 0 <= i < batch.len() ==> is_blank(#[trigger] batch[i])
}

/// The statement for one value list, where there is one.
pub open spec fn statement_of(table_ref: Seq<char>, values: Option<Seq<char>>) -> Option<
    Seq<char>,
> {
    match values {
        Some(list) => Some(insert_text(table_ref, list)),
        None => None,
    }
}

/// What dispatching `batch` may send: nothing where every line is blank, else the insert
/// statement of a value list of the batch.
pub open spec fn is_statement_for(
    statement: Option<Seq<char>>,
    table_ref: Seq<char>,
    batch: Seq<Seq<char>>,
) -> bool {
    match statement {
        None => is_blank_batch(batch),
        Some(text) => !is_blank_batch(batch) && exists|values: Seq<char>| #[trigger]
            is_value_list(values, batch) && text == insert_text(table_ref, values),
    }
}

/// What a step of the loop may send, given the batch that the step completed, if any.
pub open spec fn is_dispatch_of(
    statement: Option<Seq<char>>,
    table_ref: Seq<char>,
    batch: Option<Seq<Seq<char>>>,
) -> bool {
    match batch {
        Some(lines) => is_statement_for(statement, table_ref, lines),
        None => statement is None,
    }
}

/// The batches that are dispatched: those with a line that is not blank.
pub open spec fn dispatched(batches: Seq<Seq<Seq<char>>>) -> Seq<Seq<Seq<char>>> {
    batches.filter(|batch: Seq<Seq<char>>| !is_blank_batch(batch))
}

/// The batches that are dropped: those in which every line is blank.
pub open spec fn dropped(batches: Seq<Seq<Seq<char>>>) -> Seq<Seq<Seq<char>>> {
    batches.filter(|batch: Seq<Seq<char>>| is_blank_batch(batch))
}

/// A batch has no fragment exactly when every line of it is blank.
pub proof fn lemma_no_fragment_iff_blank(batch: Seq<Seq<char>>)
    ensures
        fragments_of(batch).len() == 0 <==> is_blank_batch(batch),
    decreases batch.len(),
{
    if batch.len() > 0 {
        let earlier = batch.drop_last();
        lemma_no_fragment_iff_blank(earlier);
        lemma_trimmed_empty_iff_blank(batch.last());
        if is_blank_batch(batch) {
            assert forall|i: int| 0 <= i < earlier.len() implies is_blank(
                #[trigger] earlier[i],
            ) by {}
        } else if is_blank(batch.last()) {
            assert(!is_blank_batch(earlier)) by {
                if is_blank_batch(earlier) {
                    assert forall|i: int| 0 <= i < batch.len() implies is_blank(
                        #[trigger] batch[i],
                    ) by {
                        if i < earlier.len() {
                            assert(batch[i] == earlier[i]);
                        }
                    }
                }
            }
        }
    }
}

/// Of the batches of a source, each is either dispatched or dropped.
pub proof fn lemma_dispatched_count(batches: Seq<Seq<Seq<char>>>)
    ensures
        dispatched(batches).len() == batches.len() - dropped(batches).len(),
    decreases batches.len(),
{
    reveal(Seq::filter);
    if batches.len() > 0 {
        lemma_dispatched_count(batches.drop_last());
    }
}

/// The number of statements that a finite source leads to: the number of lines behind the
/// header divided by the batch size, rounded up, less the batches in which every line is
/// blank.
pub proof fn lemma_statement_count(lines: Seq<Seq<char>>, header_skip_count: nat, batch_size: nat)
    requires
        batch_size >= 1,
    ensures
        dispatched(BatcherState::start(header_skip_count, batch_size).drained(lines)).len()
            == batch_count(after_header(lines, header_skip_count).len(), batch_size) - dropped(
            BatcherState::start(header_skip_count, batch_size).drained(lines),
        ).len(),
{
    lemma_drained_count(lines, header_skip_count, batch_size);
    lemma_dispatched_count(BatcherState::start(header_skip_count, batch_size).drained(lines));
}

/// A header as long as the source, or longer, leaves nothing to send: the load ends without
/// a statement, and without an error.
pub proof fn lemma_short_source_sends_nothing(
    lines: Seq<Seq<char>>,
    header_skip_count: nat,
    batch_size: nat,
)
    requires
        batch_size >= 1,
        header_skip_count >= lines.len(),
    ensures
        dispatched(BatcherState::start(header_skip_count, batch_size).drained(lines)).len() == 0,
{
    lemma_header_covers_source(lines, header_skip_count, batch_size);
    lemma_dispatched_count(BatcherState::start(header_skip_count, batch_size).drained(lines));
}

/// A batch in which every line is empty or whitespace leads to no statement, whatever the
/// table.
pub proof fn lemma_blank_batch_sends_nothing(
    statement: Option<Seq<char>>,
    table_ref: Seq<char>,
    batch: Seq<Seq<char>>,
)
    requires
        is_blank_batch(batch),
        is_statement_for(statement, table_ref, batch),
    ensures
        statement is None,
{
}

/// The statement for one value list.
pub fn statement_for_values(table_ref: &str, values: Option<String>) -> (statement: Option<String>)
    ensures
        statement.deep_view() == statement_of(table_ref@, values.deep_view()),
{
    match values {
        Some(list) => Some(insert_statement(table_ref, list.as_str())),
        None => None,
    }
}

/// The statement that dispatches `batch` into `table_ref`: none where every line of the batch
/// is blank, else the insert statement of the batch's fragments. The fragments are computed in
/// parallel, and their order within the statement is not fixed.
pub fn statement_for(table_ref: &str, batch: Vec<String>) -> (statement: Option<String>)
    ensures
        is_statement_for(statement.deep_view(), table_ref@, batch.deep_view()),
{
    proof {
        lemma_no_fragment_iff_blank(batch.deep_view());
    }
    let values = transform(batch);
    statement_for_values(table_ref, values)
}

/// The number of failed batches among `outcomes`.
pub open spec fn failures(outcomes: Seq<Option<Seq<char>>>) -> nat {
    outcomes.filter(|outcome: Option<Seq<char>>| outcome is Some).len()
}

/// What became of the batches of a load: one outcome for each statement sent, in the order
/// in which they were sent. Its view gives for each the cause of its failure, if it failed.
pub struct LoadReport {
    outcomes: Vec<BatchOutcome>,
}

impl View for LoadReport {
    type V = Seq<Option<Seq<char>>>;

    closed spec fn view(&self) -> Seq<Option<Seq<char>>> {
        self.outcomes@.map_values(|outcome: BatchOutcome| outcome@)
    }
}

impl LoadReport {
    /// The report of a load that has sent nothing yet.
    pub fn new() -> (report: LoadReport)
        ensures
            report@ == Seq::<Option<Seq<char>>>::empty(),
    {
        LoadReport { outcomes: Vec::new() }
    }

    /// Adds the outcome of one more batch.
    pub fn record(&mut self, outcome: BatchOutcome)
        ensures
            final(self)@ == old(self)@.push(outcome@),
    {
        self.outcomes.push(outcome);
    }

    /// The number of batches sent.
    pub fn dispatched(&self) -> (n: usize)
        ensures
            n == self@.len(),
    {
        self.outcomes.len()
    }

    /// The number of batches that failed.
    pub fn failed(&self) -> (n: usize)
        ensures
            n == failures(self@),
    {
        let mut n: usize = 0;
        let mut i: usize = 0;
        proof {
            reveal(Seq::filter);
        }
        while i < self.outcomes.len()
            invariant
                i <= self.outcomes.len(),
                self@.len() == self.outcomes.len(),
                n == failures(self@.take(i as int)),
                n <= i,
            decreases self.outcomes.len() - i,
        {
            proof {
                assert(self@.take(i + 1) =~= self@.take(i as int).push(self@[i as int]));
                self@.take(i as int).lemma_filter_push(
                    self@[i as int],
                    |outcome: Option<Seq<char>>| outcome is Some,
                );
            }
            match &self.outcomes[i] {
                BatchOutcome::Failed(_) => {
                    n += 1;
                },
                BatchOutcome::Acknowledged => {},
            }
            i += 1;
        }
        assert(self@.take(self@.len() as int) =~= self@);
        n
    }

    /// Whether the load went to its end with a batch that failed.
    pub fn completed_with_errors(&self) -> (with_errors: bool)
        ensures
            with_errors == (failures(self@) > 0),
    {
        self.failed() > 0
    }
}

/// What a [`Loader`] stands for.
pub struct LoaderState {
    /// The table that the load inserts into.
    pub target: TargetView,
    /// Where header skipping and batching stand.
    pub batcher: BatcherState,
    /// For each batch answered so far, the cause of its failure, if it failed.
    pub outcomes: Seq<Option<Seq<char>>>,
}

/// The state of the batch loop.
pub struct Loader {
    target: Target,
    batcher: Batcher,
    report: LoadReport,
}

impl View for Loader {
    type V = LoaderState;

    closed spec fn view(&self) -> LoaderState {
        LoaderState { target: self.target@, batcher: self.batcher@, outcomes: self.report@ }
    }
}

impl Loader {
    /// The loop before its first line: `header_skip_count` lines are to be discarded, batches
    /// hold up to `batch_size` lines, and nothing was sent.
    pub fn new(target: Target, header_skip_count: usize, batch_size: usize) -> (loader: Loader)
        requires
            batch_size >= 1,
        ensures
            loader@ == (LoaderState {
                target: target@,
                batcher: BatcherState::start(header_skip_count as nat, batch_size as nat),
                outcomes: Seq::empty(),
            }),
    {
        Loader {
            target,
            batcher: Batcher::new(header_skip_count, batch_size),
            report: LoadReport::new(),
        }
    }

    /// Takes the next line of the source. Where the line completes a batch with a line in it
    /// that is not blank, the answer is the statement to send now.
    pub fn on_line(&mut self, line: String) -> (statement: Option<String>)
        ensures
            final(self)@ == (LoaderState {
                batcher: old(self)@.batcher.push(line@),
                ..old(self)@
            }),
            is_dispatch_of(
                statement.deep_view(),
                old(self)@.target.reference,
                old(self)@.batcher.batch_on(line@),
            ),
    {
        match self.batcher.push(line) {
            Some(batch) => statement_for(self.target.reference(), batch),
            None => None,
        }
    }

    /// Takes the end of the source. Where lines are left that make a last batch with a line
    /// in it that is not blank, the answer is the statement to send now.
    pub fn on_end(&mut self) -> (statement: Option<String>)
        ensures
            final(self)@ == (LoaderState {
                batcher: old(self)@.batcher.finish(),
                ..old(self)@
            }),
            is_dispatch_of(
                statement.deep_view(),
                old(self)@.target.reference,
                old(self)@.batcher.rest(),
            ),
    {
        match self.batcher.finish() {
            Some(batch) => statement_for(self.target.reference(), batch),
            None => None,
        }
    }

    /// Takes the reply to a statement that was sent and records the outcome. Where the batch
    /// failed, the answer is the diagnostic to show; the loop goes on all the same.
    pub fn on_reply(&mut self, reply: &QueryReply) -> (line: Option<String>)
        ensures
            final(self)@ == (LoaderState {
                outcomes: old(self)@.outcomes.push(reply.failure()),
                ..old(self)@
            }),
            line.deep_view() == match reply.failure() {
                Some(cause) => Some(diagnostic_text(old(self)@.target.table, cause)),
                None => None,
            },
    {
        let outcome = BatchOutcome::of_reply(reply);
        let line = outcome.diagnostic(self.target.table());
        self.report.record(outcome);
        line
    }

    /// Ends the loop and gives the report of the load.
    pub fn finish(self) -> (report: LoadReport)
        ensures
            report@ == self@.outcomes,
    {
        self.report
    }
}

/// The statements of a source that is at hand as a whole, in the order in which they are to
/// be sent: one for each batch of the lines behind the header that has a line in it that is
/// not blank.
pub fn statements(
    target: &Target,
    lines: Vec<String>,
    header_skip_count: usize,
    batch_size: usize,
) -> (out: Vec<String>)
    requires
        batch_size >= 1,
    ensures
        out.len() == dispatched(
            batches_of(
                after_header(lines.deep_view(), header_skip_count as nat),
                batch_size as nat,
            ),
        ).len(),
        forall|i: int|
            0 <= i < out.len() ==> is_statement_for(
                Some(#[trigger] out[i]@),
                target@.reference,
                dispatched(
                    batches_of(
                        after_header(lines.deep_view(), header_skip_count as nat),
                        batch_size as nat,
                    ),
                )[i],
            ),
{
    let all = crate::batcher::batches(lines, header_skip_count, batch_size);
    let ghost source = all.deep_view();
    let ghost raw = all@;
    let mut out: Vec<String> = Vec::new();
    proof {
        reveal(Seq::filter);
    }
    for batch in it: all.into_iter()
        invariant
            it.seq() == raw,
            source.len() == raw.len(),
            forall|j: int| 0 <= j < raw.len() ==> #[trigger] source[j] == raw[j].deep_view(),
            out.len() == dispatched(source.take(it.index() as int)).len(),
            forall|i: int|
                0 <= i < out.len() ==> is_statement_for(
                    Some(#[trigger] out[i]@),
                    target@.reference,
                    dispatched(source.take(it.index() as int))[i],
                ),
    {
        let ghost k = it.index() as int;
        let ghost lines_of_batch = batch.deep_view();
        proof {
            assert(source.take(k + 1) =~= source.take(k).push(lines_of_batch));
            source.take(k).lemma_filter_push(
                lines_of_batch,
                |batch: Seq<Seq<char>>| !is_blank_batch(batch),
            );
        }
        match statement_for(target.reference(), batch) {
            Some(statement) => {
                out.push(statement);
            },
            None => {},
        }
    }
    assert(source.take(source.len() as int) =~= source);
    out
}

} // verus!
