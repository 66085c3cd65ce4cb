//! Character-level building blocks: whitespace, trimming, splitting and joining.
//!
//! Every contract in the crate speaks of text as `Seq<char>`, the view of `str` and `String`.

use itertools::Itertools;
use vstd::prelude::*;

verus! {

/// Whether `c` carries the Unicode property `White_Space`.
pub open spec fn is_whitespace(c: char) -> bool {
    let n = c as u32;
    ||| 0x09 <= n <= 0x0D
    ||| n == 0x20
    ||| n == 0x85
    ||| n == 0xA0
    ||| n == 0x1680
    ||| 0x2000 <= n <= 0x200A
    ||| n == 0x2028
    ||| n == 0x2029
    ||| n == 0x202F
    ||| n == 0x205F
    ||| n == 0x3000
}

/// A text with nothing in it but whitespace; the empty text is blank.
pub open spec fn is_blank(s: Seq<char>) -> bool {
    forall|i: int| 0 <= i < s.len() ==> is_whitespace(#[trigger] s[i])
}

/// `s` without its leading whitespace.
pub open spec fn trim_start(s: Seq<char>) -> Seq<char>
    decreases s.len(),
{
    if s.len() > 0 && is_whitespace(s[0]) {
        trim_start(s.drop_first())
    } else {
        s
    }
}

/// `s` without its trailing whitespace.
pub open spec fn trim_end(s: Seq<char>) -> Seq<char>
    decreases s.len(),
{
    if s.len() > 0 && is_whitespace(s.last()) {
        trim_end(s.drop_last())
    } else {
        s
    }
}

/// `s` without its leading and trailing whitespace.
pub open spec fn trimmed(s: Seq<char>) -> Seq<char> {
    trim_end(trim_start(s))
}

/// `s` with every whitespace character taken out, wherever it stands.
pub open spec fn squeezed(s: Seq<char>) -> Seq<char> {
    s.filter(|c: char| !is_whitespace(c))
}

/// The pieces of `s` between occurrences of `sep`. There is always at least one piece; two
/// neighbouring separators, or one at either end, give an empty piece.
pub open spec fn split(s: Seq<char>, sep: char) -> Seq<Seq<char>>
    decreases s.len(),
{
    if s.len() == 0 {
        seq![Seq::<char>::empty()]
    } else {
        let before = split(s.drop_last(), sep);
        if s.last() == sep {
            before.push(Seq::<char>::empty())
        } else {
            before.drop_last().push(before.last().push(s.last()))
        }
    }
}

/// The parts written one after another with `sep` between neighbours.
pub open spec fn joined(parts: Seq<Seq<char>>, sep: Seq<char>) -> Seq<char>
    decreases parts.len(),
{
    if parts.len() == 0 {
        Seq::<char>::empty()
    } else if parts.len() == 1 {
        parts[0]
    } else {
        joined(parts.drop_last(), sep) + sep + parts.last()
    }
}

/// `s` without one carriage return at its end, if it has one there.
pub open spec fn without_cr(s: Seq<char>) -> Seq<char> {
    if s.len() > 0 && s.last() == '\r' {
        s.drop_last()
    } else {
        s
    }
}

/// The lines of a text. A line ends at a line feed; the carriage return before that line feed,
/// if there is one, belongs to the line ending. What follows the last line feed is a line of
/// its own unless it is empty.
pub open spec fn lines_of(s: Seq<char>) -> Seq<Seq<char>> {
    let pieces = split(s, '\n');
    let ended = pieces.drop_last().map_values(|p: Seq<char>| without_cr(p));
    if pieces.last().len() == 0 {
        ended
    } else {
        ended.push(pieces.last())
    }
}

/// `trim_start` cuts at the first character that is no whitespace.
pub proof fn lemma_trim_start_at(s: Seq<char>, a: int)
    requires
        0 <= a <= s.len(),
        forall|k: int| 0 <= k < a ==> is_whitespace(#[trigger] s[k]),
        a < s.len() ==> !is_whitespace(s[a]),
    ensures
        trim_start(s) == s.subrange(a, s.len() as int),
    decreases a,
{
    if a != 0 {
        let rest = s.drop_first();
        assert forall|k: int| 0 <= k < a - 1 implies is_whitespace(#[trigger] rest[k]) by {}
        lemma_trim_start_at(rest, a - 1);
    }
}

/// `trim_end` cuts behind the last character that is no whitespace.
pub proof fn lemma_trim_end_at(s: Seq<char>, b: int)
    requires
        0 <= b <= s.len(),
        forall|k: int| b <= k < s.len() ==> is_whitespace(#[trigger] s[k]),
        0 < b ==> !is_whitespace(s[b - 1]),
    ensures
        trim_end(s) == s.subrange(0, b),
    decreases s.len() - b,
{
    if b != s.len() {
        lemma_trim_end_at(s.drop_last(), b);
    }
}

/// The trimmed text is the stretch from the first to the last character that is no whitespace.
pub proof fn lemma_trimmed_at(s: Seq<char>, a: int, b: int)
    requires
        0 <= a <= b <= s.len(),
        forall|k: int| 0 <= k < a ==> is_whitespace(#[trigger] s[k]),
        forall|k: int| b <= k < s.len() ==> is_whitespace(#[trigger] s[k]),
        a < b ==> !is_whitespace(s[a]) && !is_whitespace(s[b - 1]),
        a == b ==> a == s.len(),
    ensures
        trimmed(s) == s.subrange(a, b),
{
    lemma_trim_start_at(s, a);
    lemma_trim_end_at(s.subrange(a, s.len() as int), b - a);
}

/// A text trims to nothing exactly when it is blank.
pub proof fn lemma_trimmed_empty_iff_blank(s: Seq<char>)
    ensures
        trimmed(s).len() == 0 <==> is_blank(s),
{
    if is_blank(s) {
        lemma_trimmed_at(s, s.len() as int, s.len() as int);
    } else {
        let i = choose|i: int| 0 <= i < s.len() && !is_whitespace(#[trigger] s[i]);
        lemma_first_not_whitespace(s, i);
        lemma_last_not_whitespace(s, i);
        let a = choose|a: int| is_first_not_whitespace(s, a);
        let e = choose|e: int| is_last_not_whitespace(s, e);
        lemma_trimmed_at(s, a, e + 1);
    }
}

spec fn is_first_not_whitespace(s: Seq<char>, a: int) -> bool {
    &&& 0 <= a < s.len()
    &&& !is_whitespace(s[a])
    &&& forall|k: int| 0 <= k < a ==> is_whitespace(#[trigger] s[k])
}

spec fn is_last_not_whitespace(s: Seq<char>, e: int) -> bool {
    &&& 0 <= e < s.len()
    &&& !is_whitespace(s[e])
    &&& forall|k: int| e < k < s.len() ==> is_whitespace(#[trigger] s[k])
}

proof fn lemma_first_not_whitespace(s: Seq<char>, i: int)
    requires
        0 <= i < s.len(),
        !is_whitespace(s[i]),
    ensures
        exists|a: int| is_first_not_whitespace(s, a),
    decreases i,
{
    if exists|j: int| 0 <= j < i && !is_whitespace(#[trigger] s[j]) {
        let j = choose|j: int| 0 <= j < i && !is_whitespace(#[trigger] s[j]);
        lemma_first_not_whitespace(s, j);
    } else {
        assert(is_first_not_whitespace(s, i));
    }
}

proof fn lemma_last_not_whitespace(s: Seq<char>, i: int)
    requires
        0 <= i < s.len(),
        !is_whitespace(s[i]),
    ensures
        exists|e: int| is_last_not_whitespace(s, e),
    decreases s.len() - i,
{
    if exists|j: int| i < j < s.len() && !is_whitespace(#[trigger] s[j]) {
        let j = choose|j: int| i < j < s.len() && !is_whitespace(#[trigger] s[j]);
        lemma_last_not_whitespace(s, j);
    } else {
        assert(is_last_not_whitespace(s, i));
    }
}

/// `c` does not occur in `s`.
pub open spec fn is_free_of(s: Seq<char>, c: char) -> bool {
    forall|i: int| 0 <= i < s.len() ==> #[trigger] s[i] != c
}

/// No whitespace occurs in `s`.
pub open spec fn is_solid(s: Seq<char>) -> bool {
    forall|i: int| 0 <= i < s.len() ==> !is_whitespace(#[trigger] s[i])
}

/// Text written behind `a` that holds no separator lengthens the last piece of `a`.
pub proof fn lemma_split_append(a: Seq<char>, b: Seq<char>, sep: char)
    requires
        is_free_of(b, sep),
    ensures
        split(a, sep).len() >= 1,
        split(a + b, sep) == split(a, sep).drop_last().push(split(a, sep).last() + b),
    decreases b.len(),
{
    lemma_split_not_empty(a, sep);
    let pieces = split(a, sep);
    if b.len() != 0 {
        let shorter = b.drop_last();
        assert forall|i: int| 0 <= i < shorter.len() implies #[trigger] shorter[i] != sep by {}
        lemma_split_append(a, shorter, sep);
        assert((a + b).drop_last() =~= a + shorter);
        assert((pieces.last() + shorter).push(b.last()) =~= pieces.last() + b);
    }
}

/// A split gives at least one piece.
pub proof fn lemma_split_not_empty(s: Seq<char>, sep: char)
    ensures
        split(s, sep).len() >= 1,
    decreases s.len(),
{
    if s.len() > 0 {
        lemma_split_not_empty(s.drop_last(), sep);
    }
}

/// Splitting undoes joining: parts that hold no separator, joined by it and split at it, are
/// the parts again.
pub proof fn lemma_split_joined(parts: Seq<Seq<char>>, sep: char)
    requires
        parts.len() >= 1,
        forall|i: int| 0 <= i < parts.len() ==> is_free_of(#[trigger] parts[i], sep),
    ensures
        split(joined(parts, seq![sep]), sep) == parts,
    decreases parts.len(),
{
    if parts.len() == 1 {
        lemma_split_append(Seq::<char>::empty(), parts[0], sep);
    } else {
        let earlier = parts.drop_last();
        assert forall|i: int| 0 <= i < earlier.len() implies is_free_of(
            #[trigger] earlier[i],
            sep,
        ) by {}
        lemma_split_joined(earlier, sep);
        let head = joined(earlier, seq![sep]) + seq![sep];
        assert(head.drop_last() =~= joined(earlier, seq![sep]));
        lemma_split_append(head, parts.last(), sep);
    }
}

/// Joining undoes splitting: the pieces of a text hold no separator, and joined by it they
/// are the text again.
pub proof fn lemma_joined_split(s: Seq<char>, sep: char)
    ensures
        joined(split(s, sep), seq![sep]) == s,
        forall|i: int| 0 <= i < split(s, sep).len() ==> is_free_of(#[trigger] split(s, sep)[i], sep),
    decreases s.len(),
{
    let pieces = split(s, sep);
    if s.len() != 0 {
        let before = split(s.drop_last(), sep);
        lemma_joined_split(s.drop_last(), sep);
        lemma_split_not_empty(s.drop_last(), sep);
        assert(s =~= s.drop_last().push(s.last()));
        if s.last() == sep {
            assert(pieces.drop_last() =~= before);
        } else {
            assert(pieces.drop_last() =~= before.drop_last());
        }
        assert forall|i: int| 0 <= i < pieces.len() implies is_free_of(
            #[trigger] pieces[i],
            sep,
        ) by {}
    }
}

/// A split adds no character: what stands in a piece stands in the text.
pub proof fn lemma_split_pieces_within(s: Seq<char>, sep: char)
    ensures
        forall|i: int, j: int|
            0 <= i < split(s, sep).len() && 0 <= j < split(s, sep)[i].len() ==> s.contains(
                #[trigger] split(s, sep)[i][j],
            ),
    decreases s.len(),
{
    let pieces = split(s, sep);
    if s.len() != 0 {
        let before = split(s.drop_last(), sep);
        lemma_split_pieces_within(s.drop_last(), sep);
        lemma_split_not_empty(s.drop_last(), sep);
        assert forall|i: int, j: int|
            0 <= i < pieces.len() && 0 <= j < pieces[i].len() implies s.contains(
            #[trigger] pieces[i][j],
        ) by {
            if s.last() != sep && i == pieces.len() - 1 && j == pieces[i].len() - 1 {
                assert(pieces[i][j] == s[s.len() - 1]);
            } else {
                assert(before[i][j] == pieces[i][j]);
                let k = choose|k: int|
                    0 <= k < s.drop_last().len() && s.drop_last()[k] == before[i][j];
                assert(s[k] == pieces[i][j]);
            }
        }
    }
}

/// What squeezing leaves holds no whitespace.
pub proof fn lemma_squeezed_is_solid(s: Seq<char>)
    ensures
        is_solid(squeezed(s)),
{
    let keep = |c: char| !is_whitespace(c);
    assert forall|i: int| 0 <= i < squeezed(s).len() implies !is_whitespace(
        #[trigger] squeezed(s)[i],
    ) by {
        s.lemma_filter_pred(keep, i);
    }
}

/// Squeezing goes through a join: the squeezed parts, joined by the squeezed separator.
pub proof fn lemma_squeezed_joined(parts: Seq<Seq<char>>, sep: Seq<char>)
    ensures
        squeezed(joined(parts, sep)) == joined(
            parts.map_values(|part: Seq<char>| squeezed(part)),
            squeezed(sep),
        ),
    decreases parts.len(),
{
    let squeeze_all = parts.map_values(|part: Seq<char>| squeezed(part));
    let keep = |c: char| !is_whitespace(c);
    if parts.len() == 0 {
        reveal(Seq::filter);
    } else if parts.len() > 1 {
        lemma_squeezed_joined(parts.drop_last(), sep);
        assert(squeeze_all.drop_last() =~= parts.drop_last().map_values(
            |part: Seq<char>| squeezed(part),
        ));
        Seq::filter_distributes_over_add(joined(parts.drop_last(), sep) + sep, parts.last(), keep);
        Seq::filter_distributes_over_add(joined(parts.drop_last(), sep), sep, keep);
    }
}

/// Squeezing leaves a text without whitespace as it is.
pub proof fn lemma_squeezed_solid(s: Seq<char>)
    requires
        is_solid(s),
    ensures
        squeezed(s) == s,
    decreases s.len(),
{
    reveal(Seq::filter);
    if s.len() > 0 {
        assert forall|i: int| 0 <= i < s.drop_last().len() implies !is_whitespace(
            #[trigger] s.drop_last()[i],
        ) by {}
        lemma_squeezed_solid(s.drop_last());
    }
}

/// Decides [`is_whitespace`].
pub fn is_space(c: char) -> (b: bool)
    ensures
        b == is_whitespace(c),
{
    let n: u32 = c as u32;
    (0x09 <= n && n <= 0x0D) || n == 0x20 || n == 0x85 || n == 0xA0 || n == 0x1680 || (0x2000 <= n
        && n <= 0x200A) || n == 0x2028 || n == 0x2029 || n == 0x202F || n == 0x205F || n == 0x3000
}

/// The characters of `s`, in order.
pub fn chars_of(s: &str) -> (v: Vec<char>)
    ensures
        v@ == s@,
{
    let mut v: Vec<char> = Vec::new();
    for c in it: s.chars()
        invariant
            v@ == it.seq().take(it.index() as int),
    {
        v.push(c);
    }
    v
}

/// `String::push` of the standard library appends one character to the end of the string.
pub assume_specification[ String::push ](s: &mut String, c: char)
    ensures
        final(s)@ == old(s)@.push(c),
;

/// The string made of the first `n` characters of `v`, in order.
fn string_of_prefix(v: &Vec<char>, n: usize) -> (s: String)
    requires
        n <= v.len(),
    ensures
        s@ == v@.take(n as int),
{
    let mut s = String::new();
    let mut i: usize = 0;
    while i < n
        invariant
            i <= n <= v.len(),
            s@ == v@.take(i as int),
        decreases n - i,
    {
        s.push(v[i]);
        i += 1;
    }
    s
}

/// The string made of the characters of `v`, in order.
pub fn string_of(v: &Vec<char>) -> (s: String)
    ensures
        s@ == v@,
{
    string_of_prefix(v, v.len())
}

/// `s` without its leading and trailing whitespace, as a slice of `s`.
pub fn trim(s: &str) -> (t: &str)
    ensures
        t@ == trimmed(s@),
{
    let n = s.unicode_len();
    let mut start: usize = 0;
    let mut end: usize = 0;
    let mut i: usize = 0;
    for c in it: s.chars()
        invariant
            it.seq() == s@,
            n == s@.len(),
            i == it.index(),
            i <= n,
            start <= i,
            end <= i,
            end == 0 ==> start == i,
            end > 0 ==> start < end && !is_whitespace(s@[start as int]) && !is_whitespace(
                s@[end - 1],
            ),
            forall|k: int| 0 <= k < start ==> is_whitespace(#[trigger] s@[k]),
            forall|k: int| end <= k < i ==> is_whitespace(#[trigger] s@[k]),
    {
        if is_space(c) {
            if end == 0 {
                start = i + 1;
            }
        } else {
            end = i + 1;
        }
        i += 1;
    }
    let stop = if end == 0 {
        start
    } else {
        end
    };
    proof {
        lemma_trimmed_at(s@, start as int, stop as int);
    }
    s.substring_char(start, stop)
}

/// The pieces of `s` between occurrences of `sep`.
pub fn split_chars(s: &Vec<char>, sep: char) -> (parts: Vec<Vec<char>>)
    ensures
        parts.deep_view() == split(s@, sep),
{
    let mut parts: Vec<Vec<char>> = Vec::new();
    let mut piece: Vec<char> = Vec::new();
    let mut i: usize = 0;
    while i < s.len()
        invariant
            i <= s.len(),
            split(s@.take(i as int), sep) == parts.deep_view().push(piece@),
        decreases s.len() - i,
    {
        let c = s[i];
        assert(s@.take(i + 1).drop_last() =~= s@.take(i as int));
        if c == sep {
            assert(piece.deep_view() =~= piece@);
            parts.push(piece);
            piece = Vec::new();
        } else {
            piece.push(c);
        }
        i += 1;
    }
    assert(s@.take(s.len() as int) =~= s@);
    assert(piece.deep_view() =~= piece@);
    parts.push(piece);
    parts
}

/// `s` with every whitespace character taken out.
pub fn squeeze(s: &Vec<char>) -> (out: Vec<char>)
    ensures
        out@ == squeezed(s@),
{
    let mut out: Vec<char> = Vec::new();
    let mut i: usize = 0;
    proof {
        reveal(Seq::filter);
    }
    while i < s.len()
        invariant
            i <= s.len(),
            out@ == squeezed(s@.take(i as int)),
        decreases s.len() - i,
    {
        let c = s[i];
        proof {
            assert(s@.take(i + 1) =~= s@.take(i as int).push(c));
            s@.take(i as int).lemma_filter_push(c, |c: char| !is_whitespace(c));
        }
        if !is_space(c) {
            out.push(c);
        }
        i += 1;
    }
    assert(s@.take(s.len() as int) =~= s@);
    out
}

/// The lines of `body`.
pub fn split_lines(body: &str) -> (lines: Vec<String>)
    ensures
        lines.deep_view() == lines_of(body@),
{
    let all = chars_of(body);
    let pieces = split_chars(&all, '\n');
    proof {
        lemma_split_not_empty(body@, '\n');
    }
    let ghost texts = pieces.deep_view();
    let last = pieces.len() - 1;
    let mut lines: Vec<String> = Vec::new();
    let mut i: usize = 0;
    while i < last
        invariant
            i <= last,
            last + 1 == pieces.len(),
            texts == pieces.deep_view(),
            lines.deep_view() == texts.drop_last().take(i as int).map_values(
                |p: Seq<char>| without_cr(p),
            ),
        decreases last - i,
    {
        let piece = &pieces[i];
        assert(piece.deep_view() =~= piece@);
        let n = piece.len();
        let line = if n > 0 && piece[n - 1] == '\r' {
            string_of_prefix(piece, n - 1)
        } else {
            string_of(piece)
        };
        let ghost before = lines.deep_view();
        let ghost added = line@;
        lines.push(line);
        assert(lines.deep_view() =~= before.push(added));
        i += 1;
    }
    let tail = &pieces[last];
    assert(tail.deep_view() =~= tail@);
    if tail.len() > 0 {
        let line = string_of(tail);
        let ghost before = lines.deep_view();
        let ghost added = line@;
        lines.push(line);
        assert(lines.deep_view() =~= before.push(added));
    }
    lines
}

/// `prefix` stands at the beginning of `s`.
pub open spec fn begins_with(s: Seq<char>, prefix: Seq<char>) -> bool {
    prefix.len() <= s.len() && s.subrange(0, prefix.len() as int) == prefix
}

/// Decides [`begins_with`].
pub fn starts_with(s: &str, prefix: &str) -> (b: bool)
    ensures
        b == begins_with(s@, prefix@),
{
    let text = chars_of(s);
    let head = chars_of(prefix);
    if head.len() > text.len() {
        return false;
    }
    let mut i: usize = 0;
    while i < head.len()
        invariant
            i <= head.len() <= text.len(),
            text@ == s@,
            head@ == prefix@,
            forall|k: int| 0 <= k < i ==> text@[k] == head@[k],
        decreases head.len() - i,
    {
        if text[i] != head[i] {
            return false;
        }
        i += 1;
    }
    assert(s@.subrange(0, prefix@.len() as int) =~= prefix@);
    true
}

/// Calls `Itertools::join` of the crate itertools on the strings of `parts`. That function
/// writes the first item, then for each further item the separator and the item, each item by
/// its `Display`, which for a `String` is the string itself: the result is [`joined`].
#[verifier::external_body]
pub(crate) fn join(parts: &Vec<String>, sep: &str) -> (out: String)
    ensures
        out@ == joined(parts.deep_view(), sep@),
{
    parts.iter().join(sep)
}

} // verus!
