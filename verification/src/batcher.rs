//! Header skipping and batching: from a stream of lines to bounded batches in source order.

use vstd::prelude::*;

verus! {

/// The batch size of a load that names none.
pub const DEFAULT_BATCH_SIZE: usize = 100_000;

/// What a [`Batcher`] stands for: how many header lines are still to be discarded, the cap on a
/// batch, and the lines gathered for the batch in the making.
pub struct BatcherState {
    pub skip_left: nat,
    pub batch_size: nat,
    pub pending: Seq<Seq<char>>,
}

impl BatcherState {
    /// The state before the first line.
    pub open spec fn start(header_skip_count: nat, batch_size: nat) -> BatcherState {
        BatcherState { skip_left: header_skip_count, batch_size, pending: Seq::empty() }
    }

    /// The cap is positive and the batch in the making is below it.
    pub open spec fn wf(self) -> bool {
        self.batch_size >= 1 && self.pending.len() < self.batch_size
    }

    /// Whether the next line completes a batch.
    pub open spec fn fills(self) -> bool {
        self.skip_left == 0 && self.pending.len() + 1 >= self.batch_size
    }

    /// The state after `line`.
    pub open spec fn push(self, line: Seq<char>) -> BatcherState {
        if self.skip_left > 0 {
            BatcherState { skip_left: (self.skip_left - 1) as nat, ..self }
        } else if self.fills() {
            BatcherState { pending: Seq::empty(), ..self }
        } else {
            BatcherState { pending: self.pending.push(line), ..self }
        }
    }

    /// The batch that `line` completes, if it completes one.
    pub open spec fn batch_on(self, line: Seq<char>) -> Option<Seq<Seq<char>>> {
        if self.fills() {
            Some(self.pending.push(line))
        } else {
            None
        }
    }

    /// The last, partial batch: what was gathered when the stream ended, if anything was.
    pub open spec fn rest(self) -> Option<Seq<Seq<char>>> {
        if self.pending.len() > 0 {
            Some(self.pending)
        } else {
            None
        }
    }

    /// The state after the stream has ended.
    pub open spec fn finish(self) -> BatcherState {
        BatcherState { pending: Seq::empty(), ..self }
    }

    /// The state after the lines of `lines`, one after another.
    pub open spec fn feed(self, lines: Seq<Seq<char>>) -> BatcherState
        decreases lines.len(),
    {
        if lines.len() == 0 {
            self
        } else {
            self.feed(lines.drop_last()).push(lines.last())
        }
    }

    /// The batches completed while the lines of `lines` came in, in the order of their
    /// completion.
    pub open spec fn yielded(self, lines: Seq<Seq<char>>) -> Seq<Seq<Seq<char>>>
        decreases lines.len(),
    {
        if lines.len() == 0 {
            Seq::empty()
        } else {
            let earlier = self.yielded(lines.drop_last());
            match self.feed(lines.drop_last()).batch_on(lines.last()) {
                Some(batch) => earlier.push(batch),
                None => earlier,
            }
        }
    }

    /// Every batch of a stream that holds the lines of `lines` and then ends.
    pub open spec fn drained(self, lines: Seq<Seq<char>>) -> Seq<Seq<Seq<char>>> {
        match self.feed(lines).rest() {
            Some(batch) => self.yielded(lines).push(batch),
            None => self.yielded(lines),
        }
    }
}

/// The lines behind the header: all but the first `header_skip_count`, none where the header
/// is as long as the source or longer.
pub open spec fn after_header(lines: Seq<Seq<char>>, header_skip_count: nat) -> Seq<Seq<char>> {
    if header_skip_count >= lines.len() {
        Seq::empty()
    } else {
        lines.skip(header_skip_count as int)
    }
}

/// The number of batches that `line_count` lines make: the quotient by the batch size,
/// rounded up.
pub open spec fn batch_count(line_count: nat, batch_size: nat) -> nat {
    ((line_count + batch_size - 1) / (batch_size as int)) as nat
}

/// Where batch `i` ends in a source of `line_count` lines.
pub open spec fn batch_end(i: int, line_count: nat, batch_size: nat) -> int {
    if (i + 1) * batch_size <= line_count {
        (i + 1) * batch_size
    } else {
        line_count as int
    }
}

/// The batches of `lines`: batch `i` holds the lines from `i * batch_size` up to the next
/// multiple of the batch size, or up to the end of the source where that comes first.
pub open spec fn batches_of(lines: Seq<Seq<char>>, batch_size: nat) -> Seq<Seq<Seq<char>>> {
    Seq::new(
        batch_count(lines.len(), batch_size),
        |i: int| lines.subrange(i * batch_size, batch_end(i, lines.len(), batch_size)),
    )
}

/// Discards header lines, then groups the lines that follow into batches of at most
/// `batch_size` lines, in source order.
pub struct Batcher {
    skip_left: usize,
    batch_size: usize,
    pending: Vec<String>,
}

impl View for Batcher {
    type V = BatcherState;

    closed spec fn view(&self) -> BatcherState {
        BatcherState {
            skip_left: self.skip_left as nat,
            batch_size: self.batch_size as nat,
            pending: self.pending.deep_view(),
        }
    }
}

impl Batcher {
    #[verifier::type_invariant]
    spec fn inv(self) -> bool {
        self.batch_size >= 1 && self.pending@.len() < self.batch_size
    }

    /// A batcher that discards the first `header_skip_count` lines and then yields batches of
    /// `batch_size` lines.
    pub fn new(header_skip_count: usize, batch_size: usize) -> (batcher: Batcher)
        requires
            batch_size >= 1,
        ensures
            batcher@ == BatcherState::start(header_skip_count as nat, batch_size as nat),
    {
        let batcher = Batcher { skip_left: header_skip_count, batch_size, pending: Vec::new() };
        assert(batcher.pending.deep_view() =~= Seq::<Seq<char>>::empty());
        batcher
    }

    /// Takes the next line of the stream. Gives the batch that the line completes, if it
    /// completes one.
    pub fn push(&mut self, line: String) -> (batch: Option<Vec<String>>)
        ensures
            final(self)@ == old(self)@.push(line@),
            batch.deep_view() == old(self)@.batch_on(line@),
            final(self)@.wf(),
    {
        proof {
            use_type_invariant(&*self);
        }
        if self.skip_left > 0 {
            self.skip_left = self.skip_left - 1;
            None
        } else {
            let ghost before = self.pending.deep_view();
            let mut batch: Vec<String> = Vec::new();
            std::mem::swap(&mut self.pending, &mut batch);
            batch.push(line);
            assert(batch.deep_view() =~= before.push(line@));
            if batch.len() >= self.batch_size {
                assert(self.pending.deep_view() =~= Seq::<Seq<char>>::empty());
                Some(batch)
            } else {
                std::mem::swap(&mut self.pending, &mut batch);
                None
            }
        }
    }

    /// Takes the end of the stream. Gives the last, partial batch, if any line is left for it.
    pub fn finish(&mut self) -> (batch: Option<Vec<String>>)
        ensures
            final(self)@ == old(self)@.finish(),
            batch.deep_view() == old(self)@.rest(),
            final(self)@.wf(),
    {
        proof {
            use_type_invariant(&*self);
        }
        if self.pending.len() > 0 {
            let mut batch: Vec<String> = Vec::new();
            std::mem::swap(&mut self.pending, &mut batch);
            assert(self.pending.deep_view() =~= Seq::<Seq<char>>::empty());
            Some(batch)
        } else {
            assert(self.pending.deep_view() =~= Seq::<Seq<char>>::empty());
            None
        }
    }
}

/// Where a batcher stands after `lines`: the header is worked off as far as the lines reach,
/// the batches yielded are the full ones among the lines behind the header, and the lines
/// gathered are what follows the last full batch.
proof fn lemma_feed(lines: Seq<Seq<char>>, header_skip_count: nat, batch_size: nat)
    requires
        batch_size >= 1,
    ensures
        ({
            let start = BatcherState::start(header_skip_count, batch_size);
            let state = start.feed(lines);
            let full = start.yielded(lines);
            let data = after_header(lines, header_skip_count);
            &&& state.batch_size == batch_size
            &&& state.skip_left == if header_skip_count >= lines.len() {
                header_skip_count - lines.len()
            } else {
                0
            }
            &&& state.pending.len() < batch_size
            &&& data.len() == full.len() * batch_size + state.pending.len()
            &&& state.pending == data.subrange((full.len() * batch_size) as int, data.len() as int)
            &&& forall|i: int|
                0 <= i < full.len() ==> #[trigger] full[i] == data.subrange(
                    i * batch_size,
                    i * batch_size + batch_size,
                )
        }),
    decreases lines.len(),
{
    let start = BatcherState::start(header_skip_count, batch_size);
    let s = batch_size as int;
    if lines.len() != 0 {
        let earlier = lines.drop_last();
        lemma_feed(earlier, header_skip_count, batch_size);
        let full = start.yielded(lines);
        let data = after_header(lines, header_skip_count);
        let q = start.yielded(earlier).len() as int;
        if header_skip_count < lines.len() {
            assert(q * s + s == (q + 1) * s) by (nonlinear_arith);
            assert forall|i: int| 0 <= i < full.len() implies #[trigger] full[i] == data.subrange(
                i * s,
                i * s + s,
            ) by {
                if i < q {
                    assert(i * s + s <= q * s) by (nonlinear_arith)
                        requires
                            0 <= i < q,
                            s >= 1,
                    ;
                }
            }
        }
    }
}

/// `full` batches of `batch_size` lines and `rest` lines more, `rest` below the batch size,
/// make `full` batches, and one more where `rest` is not zero.
proof fn lemma_batch_count(full: nat, rest: nat, batch_size: nat)
    requires
        batch_size >= 1,
        rest < batch_size,
    ensures
        batch_count(full * batch_size + rest, batch_size) == if rest > 0 {
            full + 1
        } else {
            full
        },
{
    let s = batch_size as int;
    let x: int = full * batch_size + rest + batch_size - 1;
    if rest > 0 {
        assert(x == (full + 1) * s + (rest - 1)) by (nonlinear_arith)
            requires
                x == full * s + rest + s - 1,
        ;
        vstd::arithmetic::div_mod::lemma_fundamental_div_mod_converse(
            x,
            s,
            (full + 1) as int,
            (rest - 1) as int,
        );
    } else {
        vstd::arithmetic::div_mod::lemma_fundamental_div_mod_converse(x, s, full as int, s - 1);
    }
}

/// Fed a finite source, a batcher gives the batches of the lines behind the header: no line
/// of the header, every line behind it, each once and in source order, `batch_size` lines to
/// a batch but for the last, which holds what is left.
pub proof fn lemma_drained_is_batches(
    lines: Seq<Seq<char>>,
    header_skip_count: nat,
    batch_size: nat,
)
    requires
        batch_size >= 1,
    ensures
        BatcherState::start(header_skip_count, batch_size).drained(lines) == batches_of(
            after_header(lines, header_skip_count),
            batch_size,
        ),
{
    let start = BatcherState::start(header_skip_count, batch_size);
    let state = start.feed(lines);
    let full = start.yielded(lines);
    let data = after_header(lines, header_skip_count);
    let all = start.drained(lines);
    let expected = batches_of(data, batch_size);
    let s = batch_size as int;
    let q = full.len() as int;
    lemma_feed(lines, header_skip_count, batch_size);
    lemma_batch_count(full.len(), state.pending.len(), batch_size);
    assert forall|i: int| 0 <= i < all.len() implies all[i] == expected[i] by {
        if i < q {
            assert((i + 1) * s <= q * s && (i + 1) * s == i * s + s) by (nonlinear_arith)
                requires
                    0 <= i < q,
                    s >= 1,
            ;
        } else {
            assert((q + 1) * s == q * s + s) by (nonlinear_arith);
        }
    }
}


/// The number of batches of a finite source is the number of lines behind the header divided
/// by the batch size, rounded up.
pub proof fn lemma_drained_count(lines: Seq<Seq<char>>, header_skip_count: nat, batch_size: nat)
    requires
        batch_size >= 1,
    ensures
        BatcherState::start(header_skip_count, batch_size).drained(lines).len() == batch_count(
            after_header(lines, header_skip_count).len(),
            batch_size,
        ),
{
    lemma_drained_is_batches(lines, header_skip_count, batch_size);
}

/// No batch holds a line of the header: line `k` of batch `i` is the line of the source at
/// `header_skip_count + i * batch_size + k`.
pub proof fn lemma_header_never_yielded(
    lines: Seq<Seq<char>>,
    header_skip_count: nat,
    batch_size: nat,
    i: int,
    k: int,
)
    requires
        batch_size >= 1,
        0 <= i < BatcherState::start(header_skip_count, batch_size).drained(lines).len(),
        0 <= k < BatcherState::start(header_skip_count, batch_size).drained(lines)[i].len(),
    ensures
        header_skip_count <= header_skip_count + i * batch_size + k < lines.len(),
        BatcherState::start(header_skip_count, batch_size).drained(lines)[i][k]
            == lines[header_skip_count + i * batch_size + k],
{
    lemma_drained_is_batches(lines, header_skip_count, batch_size);
    let data = after_header(lines, header_skip_count);
    let s = batch_size as int;
    lemma_batch_bounds(data.len(), batch_size, i);
    assert(0 <= i * s) by (nonlinear_arith)
        requires
            0 <= i,
            s >= 1,
    ;
}

/// Batch `i` of `line_count` lines begins inside the source and is not empty.
proof fn lemma_batch_bounds(line_count: nat, batch_size: nat, i: int)
    requires
        batch_size >= 1,
        0 <= i < batch_count(line_count, batch_size),
    ensures
        0 <= i * batch_size < batch_end(i, line_count, batch_size) <= line_count,
        batch_end(i, line_count, batch_size) <= i * batch_size + batch_size,
{
    let s = batch_size as int;
    let x: int = line_count + batch_size - 1;
    vstd::arithmetic::div_mod::lemma_fundamental_div_mod(x, s);
    vstd::arithmetic::div_mod::lemma_mod_bound(x, s);
    let c = x / s;
    assert(i * s + s <= c * s) by (nonlinear_arith)
        requires
            0 <= i < c,
            s >= 1,
    ;
    assert(s * c == c * s) by (nonlinear_arith);
    assert((i + 1) * s == i * s + s) by (nonlinear_arith);
    assert(0 <= i * s) by (nonlinear_arith)
        requires
            0 <= i,
            s >= 1,
    ;
}

/// A header as long as the source, or longer, leaves no batch.
pub proof fn lemma_header_covers_source(
    lines: Seq<Seq<char>>,
    header_skip_count: nat,
    batch_size: nat,
)
    requires
        batch_size >= 1,
        header_skip_count >= lines.len(),
    ensures
        BatcherState::start(header_skip_count, batch_size).drained(lines).len() == 0,
{
    lemma_drained_is_batches(lines, header_skip_count, batch_size);
    lemma_batch_count(0, 0, batch_size);
    assert(0 * batch_size + 0 == 0) by (nonlinear_arith);
}

/// The batches of a source that is at hand as a whole: the lines behind the header, in source
/// order, `batch_size` to a batch but for the last, which holds what is left.
pub fn batches(lines: Vec<String>, header_skip_count: usize, batch_size: usize) -> (out: Vec<
    Vec<String>,
>)
    requires
        batch_size >= 1,
    ensures
        out.deep_view() == batches_of(
            after_header(lines.deep_view(), header_skip_count as nat),
            batch_size as nat,
        ),
{
    let ghost start = BatcherState::start(header_skip_count as nat, batch_size as nat);
    let ghost source = lines.deep_view();
    let ghost raw = lines@;
    let mut batcher = Batcher::new(header_skip_count, batch_size);
    let mut out: Vec<Vec<String>> = Vec::new();
    for line in it: lines.into_iter()
        invariant
            it.seq() == raw,
            source.len() == raw.len(),
            forall|j: int| 0 <= j < raw.len() ==> #[trigger] source[j] == raw[j]@,
            batcher@ == start.feed(source.take(it.index() as int)),
            out.deep_view() == start.yielded(source.take(it.index() as int)),
    {
        let ghost i = it.index() as int;
        assert(source.take(i + 1).drop_last() =~= source.take(i));
        match batcher.push(line) {
            Some(batch) => {
                out.push(batch);
            },
            None => {},
        }
    }
    assert(source.take(source.len() as int) =~= source);
    match batcher.finish() {
        Some(batch) => {
            out.push(batch);
        },
        None => {},
    }
    proof {
        lemma_drained_is_batches(source, header_skip_count as nat, batch_size as nat);
    }
    out
}

} // verus!
