//! The schema description: a text of `name:type` pairs, and the ordered columns it declares.

use crate::text::{
    chars_of, is_free_of, is_solid, is_whitespace, join, joined, lemma_joined_split,
    lemma_split_append, lemma_split_joined, lemma_split_not_empty, lemma_split_pieces_within,
    lemma_squeezed_is_solid, lemma_squeezed_joined, lemma_squeezed_solid, split, split_chars,
    squeeze, squeezed, string_of,
};
use vstd::prelude::*;
use vstd::string::*;

verus! {

/// The fields of a schema description: the whitespace goes, wherever it stands, and what is
/// left is cut at the commas.
pub open spec fn fields_of(text: Seq<char>) -> Seq<Seq<char>> {
    split(squeezed(text), ',')
}

/// The tokens of one field: what stands between its colons, but for empty stretches.
pub open spec fn tokens_of(field: Seq<char>) -> Seq<Seq<char>> {
    split(field, ':').filter(|piece: Seq<char>| piece.len() > 0)
}

/// Whether `text` describes a schema: each of its fields has exactly two tokens.
pub open spec fn is_schema_text(text: Seq<char>) -> bool {
    forall|i: int|
        0 <= i < fields_of(text).len() ==> tokens_of(#[trigger] fields_of(text)[i]).len() == 2
}

/// What a field declares: its first token names the column, its second the column's type.
pub open spec fn declaration_of(field: Seq<char>) -> (Seq<char>, Seq<char>) {
    (tokens_of(field)[0], tokens_of(field)[1])
}

/// The declarations of a schema description, in the order in which they stand.
pub open spec fn declarations_of(text: Seq<char>) -> Seq<(Seq<char>, Seq<char>)> {
    fields_of(text).map_values(|field: Seq<char>| declaration_of(field))
}

/// Whether a column of `columns` has the name `name`.
pub open spec fn declares(columns: Seq<(Seq<char>, Seq<char>)>, name: Seq<char>) -> bool {
    exists|i: int| 0 <= i < columns.len() && (#[trigger] columns[i]).0 == name
}

/// No two columns have the same name.
pub open spec fn distinct_names(columns: Seq<(Seq<char>, Seq<char>)>) -> bool {
    forall|i: int, j: int|
        0 <= i < j < columns.len() ==> (#[trigger] columns[i]).0 != (#[trigger] columns[j]).0
}

/// The columns after one more declaration. A name that is new comes last. A name that is
/// there already keeps its place and takes the type declared later.
pub open spec fn declare(
    columns: Seq<(Seq<char>, Seq<char>)>,
    name: Seq<char>,
    kind: Seq<char>,
) -> Seq<(Seq<char>, Seq<char>)> {
    if declares(columns, name) {
        let i = choose|i: int| 0 <= i < columns.len() && (#[trigger] columns[i]).0 == name;
        columns.update(i, (name, kind))
    } else {
        columns.push((name, kind))
    }
}

/// The columns that a sequence of declarations leaves.
pub open spec fn columns_of(declarations: Seq<(Seq<char>, Seq<char>)>) -> Seq<
    (Seq<char>, Seq<char>),
>
    decreases declarations.len(),
{
    if declarations.len() == 0 {
        Seq::empty()
    } else {
        declare(
            columns_of(declarations.drop_last()),
            declarations.last().0,
            declarations.last().1,
        )
    }
}

/// The columns that `text` declares, or `None` where it describes no schema.
pub open spec fn parsed(text: Seq<char>) -> Option<Seq<(Seq<char>, Seq<char>)>> {
    if is_schema_text(text) {
        Some(columns_of(declarations_of(text)))
    } else {
        None
    }
}

/// The column list of a creation statement: each column as its name, a space and its type,
/// the columns joined by a comma and a space.
pub open spec fn rendered(columns: Seq<(Seq<char>, Seq<char>)>) -> Seq<char> {
    joined(columns.map_values(|column: (Seq<char>, Seq<char>)| column.0 + " "@ + column.1), ", "@)
}

/// The column names, joined by a comma and a space.
pub open spec fn names_of(columns: Seq<(Seq<char>, Seq<char>)>) -> Seq<char> {
    joined(columns.map_values(|column: (Seq<char>, Seq<char>)| column.0), ", "@)
}

/// What `from_str` answers to a text that describes no schema.
pub open spec fn invalid_schema_text() -> Seq<char> {
    "not a valid schema, please input schema in format like a:uint8,b:uint64"@
}

/// One more declaration keeps the names distinct.
pub proof fn lemma_declare_keeps_distinct(
    columns: Seq<(Seq<char>, Seq<char>)>,
    name: Seq<char>,
    kind: Seq<char>,
)
    requires
        distinct_names(columns),
    ensures
        distinct_names(declare(columns, name, kind)),
{
    let after = declare(columns, name, kind);
    assert forall|a: int, b: int| 0 <= a < b < after.len() implies (#[trigger] after[a]).0 != (
    #[trigger] after[b]).0 by {}
}

/// The columns of a schema, in the order of their first declaration, no name twice.
pub struct Schema {
    columns: Vec<(String, String)>,
}

impl View for Schema {
    type V = Seq<(Seq<char>, Seq<char>)>;

    closed spec fn view(&self) -> Seq<(Seq<char>, Seq<char>)> {
        self.columns.deep_view()
    }
}

impl Schema {
    #[verifier::type_invariant]
    spec fn inv(self) -> bool {
        distinct_names(self.columns.deep_view())
    }

    /// Reads a schema description such as `a:uint8, b:uint64`. A text with a field that has
    /// not exactly two tokens is rejected as a whole. A schema that comes out has at least one
    /// column, no name twice, and for every column one name and one type, neither empty.
    pub fn from_str(s: &str) -> (out: Result<Schema, &'static str>)
        ensures
            match out {
                Ok(schema) => parsed(s@) == Some(schema@) && distinct_names(schema@)
                    && schema@.len() >= 1 && all_tokens(schema@),
                Err(message) => parsed(s@) is None && message@ == invalid_schema_text(),
            },
    {
        let all = chars_of(s);
        let kept = squeeze(&all);
        let fields = split_chars(&kept, ',');
        let mut columns: Vec<(String, String)> = Vec::new();
        let mut i: usize = 0;
        while i < fields.len()
            invariant
                i <= fields.len(),
                fields.deep_view() == fields_of(s@),
                forall|j: int|
                    0 <= j < i ==> tokens_of(#[trigger] fields_of(s@)[j]).len() == 2,
                columns.deep_view() == columns_of(declarations_of(s@).take(i as int)),
                distinct_names(columns.deep_view()),
            decreases fields.len() - i,
        {
            assert(fields.deep_view()[i as int] == fields[i as int]@);
            let tokens = tokens(&fields[i]);
            if tokens.len() != 2 {
                return Err("not a valid schema, please input schema in format like a:uint8,b:uint64");
            }
            let name = string_of(&tokens[0]);
            let kind = string_of(&tokens[1]);
            proof {
                let upto = declarations_of(s@).take(i + 1);
                assert(upto.drop_last() =~= declarations_of(s@).take(i as int));
                assert(upto.last() == (name@, kind@));
                lemma_declare_keeps_distinct(columns.deep_view(), name@, kind@);
            }
            columns = declare_column(columns, name, kind);
            i += 1;
        }
        assert(declarations_of(s@).take(fields.len() as int) =~= declarations_of(s@));
        proof {
            lemma_parsed_columns_are_tokens(s@, columns.deep_view());
        }
        Ok(Schema { columns })
    }

    /// The number of columns.
    pub fn len(&self) -> (n: usize)
        ensures
            n == self@.len(),
    {
        self.columns.len()
    }

    /// The column list of a creation statement.
    pub fn to_string(&self) -> (out: String)
        ensures
            out@ == rendered(self@),
    {
        let mut parts: Vec<String> = Vec::new();
        let mut i: usize = 0;
        while i < self.columns.len()
            invariant
                i <= self.columns.len(),
                parts.deep_view() == self@.take(i as int).map_values(
                    |column: (Seq<char>, Seq<char>)| column.0 + " "@ + column.1,
                ),
            decreases self.columns.len() - i,
        {
            let mut part = self.columns[i].0.clone();
            part.append(" ");
            part.append(self.columns[i].1.as_str());
            let ghost before = parts.deep_view();
            let ghost added = part@;
            parts.push(part);
            assert(parts.deep_view() =~= before.push(added));
            i += 1;
        }
        assert(self@.take(self.columns.len() as int) =~= self@);
        join(&parts, ", ")
    }

    /// The column names, joined by a comma and a space.
    pub fn column_names(&self) -> (out: String)
        ensures
            out@ == names_of(self@),
    {
        let mut parts: Vec<String> = Vec::new();
        let mut i: usize = 0;
        while i < self.columns.len()
            invariant
                i <= self.columns.len(),
                parts.deep_view() == self@.take(i as int).map_values(
                    |column: (Seq<char>, Seq<char>)| column.0,
                ),
            decreases self.columns.len() - i,
        {
            let part = self.columns[i].0.clone();
            let ghost before = parts.deep_view();
            let ghost added = part@;
            parts.push(part);
            assert(parts.deep_view() =~= before.push(added));
            i += 1;
        }
        assert(self@.take(self.columns.len() as int) =~= self@);
        join(&parts, ", ")
    }
}

/// The tokens of one field.
fn tokens(field: &Vec<char>) -> (out: Vec<Vec<char>>)
    ensures
        out.deep_view() == tokens_of(field@),
{
    let pieces = split_chars(field, ':');
    let ghost all = pieces.deep_view();
    let ghost raw = pieces@;
    let mut out: Vec<Vec<char>> = Vec::new();
    proof {
        reveal(Seq::filter);
    }
    for piece in it: pieces.into_iter()
        invariant
            it.seq() == raw,
            all.len() == raw.len(),
            forall|j: int| 0 <= j < raw.len() ==> #[trigger] all[j] == raw[j]@,
            out.deep_view() == all.take(it.index() as int).filter(
                |piece: Seq<char>| piece.len() > 0,
            ),
    {
        let ghost i = it.index() as int;
        proof {
            assert(all.take(i + 1) =~= all.take(i).push(piece@));
            all.take(i).lemma_filter_push(piece@, |piece: Seq<char>| piece.len() > 0);
        }
        if piece.len() > 0 {
            assert(piece.deep_view() =~= piece@);
            out.push(piece);
        }
    }
    assert(all.take(all.len() as int) =~= all);
    out
}

/// The columns after one more declaration.
fn declare_column(given: Vec<(String, String)>, name: String, kind: String) -> (out: Vec<
    (String, String),
>)
    requires
        distinct_names(given.deep_view()),
    ensures
        out.deep_view() == declare(given.deep_view(), name@, kind@),
{
    let ghost before = given.deep_view();
    let mut columns = given;
    let mut j: usize = 0;
    while j < columns.len()
        invariant
            j <= columns.len(),
            columns.deep_view() == before,
            before == given.deep_view(),
            distinct_names(before),
            forall|k: int| 0 <= k < j ==> (#[trigger] before[k]).0 != name@,
        decreases columns.len() - j,
    {
        if columns[j].0 == name {
            assert(before[j as int].0 == name@);
            columns.set(j, (name, kind));
            return columns;
        }
        j += 1;
    }
    columns.push((name, kind));
    columns
}


/// A token as a schema description can hold it: not empty, and without whitespace, comma or
/// colon.
pub open spec fn is_token(text: Seq<char>) -> bool {
    text.len() > 0 && is_solid(text) && is_free_of(text, ',') && is_free_of(text, ':')
}

/// One declaration as text: the name, a colon, the type.
pub open spec fn declaration_text(declaration: (Seq<char>, Seq<char>)) -> Seq<char> {
    declaration.0 + ":"@ + declaration.1
}

/// A schema description that states `declarations` in order, with a comma and a space
/// between neighbours, as in `a:uint8, b:uint64`.
pub open spec fn schema_text(declarations: Seq<(Seq<char>, Seq<char>)>) -> Seq<char> {
    joined(declaration_texts(declarations), ", "@)
}

/// The tokens of the field `name:kind` are the name and the type.
proof fn lemma_tokens_of_declaration(name: Seq<char>, kind: Seq<char>)
    requires
        is_token(name),
        is_token(kind),
    ensures
        tokens_of(name + ":"@ + kind) == seq![name, kind],
        is_solid(name + ":"@ + kind),
        is_free_of(name + ":"@ + kind, ','),
{
    reveal_strlit(":");
    let keep = |piece: Seq<char>| piece.len() > 0;
    lemma_split_append(Seq::<char>::empty(), name, ':');
    let head = name + ":"@;
    assert(head.drop_last() =~= name);
    lemma_split_append(head, kind, ':');
    assert(split(head + kind, ':') =~= seq![name, kind]);
    assert(seq![name, kind] =~= Seq::<Seq<char>>::empty().push(name).push(kind));
    Seq::<Seq<char>>::empty().lemma_filter_push(name, keep);
    Seq::<Seq<char>>::empty().push(name).lemma_filter_push(kind, keep);
    assert(Seq::<Seq<char>>::empty().filter(keep) =~= Seq::<Seq<char>>::empty()) by {
        reveal(Seq::filter);
    }
}

/// Declarations with distinct names all become columns, in their order.
proof fn lemma_columns_of_distinct(declarations: Seq<(Seq<char>, Seq<char>)>)
    requires
        distinct_names(declarations),
    ensures
        columns_of(declarations) == declarations,
    decreases declarations.len(),
{
    if declarations.len() != 0 {
        let earlier = declarations.drop_last();
        assert forall|i: int, j: int| 0 <= i < j < earlier.len() implies (#[trigger] earlier[i]).0
            != (#[trigger] earlier[j]).0 by {}
        lemma_columns_of_distinct(earlier);
        assert(!declares(earlier, declarations.last().0));
    }
}

/// Every name and every type of `columns` is a token.
pub open spec fn all_tokens(columns: Seq<(Seq<char>, Seq<char>)>) -> bool {
    forall|i: int|
        0 <= i < columns.len() ==> is_token((#[trigger] columns[i]).0) && is_token(columns[i].1)
}

/// The tokens of a field of a schema description are tokens: none is empty, and none holds
/// whitespace, a comma or a colon.
proof fn lemma_tokens_of_field(text: Seq<char>, i: int, j: int)
    requires
        0 <= i < fields_of(text).len(),
        0 <= j < tokens_of(fields_of(text)[i]).len(),
    ensures
        is_token(tokens_of(fields_of(text)[i])[j]),
{
    let kept = squeezed(text);
    let field = fields_of(text)[i];
    let pieces = split(field, ':');
    let keep = |piece: Seq<char>| piece.len() > 0;
    let token = tokens_of(field)[j];
    lemma_squeezed_is_solid(text);
    lemma_joined_split(kept, ',');
    lemma_split_pieces_within(kept, ',');
    lemma_joined_split(field, ':');
    lemma_split_pieces_within(field, ':');
    pieces.lemma_filter_pred(keep, j);
    assert(pieces.filter(keep).contains(token));
    pieces.lemma_filter_contains_rev(keep, token);
    let p = choose|p: int| 0 <= p < pieces.len() && pieces[p] == token;
    assert forall|k: int| 0 <= k < token.len() implies !is_whitespace(#[trigger] token[k])
        && token[k] != ',' by {
        assert(field.contains(pieces[p][k]));
        let m = choose|m: int| 0 <= m < field.len() && field[m] == token[k];
        assert(kept.contains(fields_of(text)[i][m]));
    }
}

/// One more declaration of tokens leaves tokens, and at least one column.
proof fn lemma_declare_keeps_tokens(
    columns: Seq<(Seq<char>, Seq<char>)>,
    name: Seq<char>,
    kind: Seq<char>,
)
    requires
        all_tokens(columns),
        is_token(name),
        is_token(kind),
    ensures
        all_tokens(declare(columns, name, kind)),
        declare(columns, name, kind).len() >= 1,
{
}

/// The columns that declarations of tokens leave are tokens, and there is a column where
/// there is a declaration.
proof fn lemma_columns_of_tokens(declarations: Seq<(Seq<char>, Seq<char>)>)
    requires
        all_tokens(declarations),
    ensures
        all_tokens(columns_of(declarations)),
        declarations.len() >= 1 ==> columns_of(declarations).len() >= 1,
    decreases declarations.len(),
{
    if declarations.len() != 0 {
        let earlier = declarations.drop_last();
        assert forall|i: int| 0 <= i < earlier.len() implies is_token((#[trigger] earlier[i]).0)
            && is_token(earlier[i].1) by {
            assert(earlier[i] == declarations[i]);
        }
        lemma_columns_of_tokens(earlier);
        lemma_declare_keeps_tokens(
            columns_of(earlier),
            declarations.last().0,
            declarations.last().1,
        );
    }
}

/// What a schema holds: a description that parses declares at least one column, and every
/// column has one name and one type, each of them not empty and without whitespace, comma or
/// colon.
pub proof fn lemma_parsed_columns_are_tokens(
    text: Seq<char>,
    columns: Seq<(Seq<char>, Seq<char>)>,
)
    requires
        parsed(text) == Some(columns),
    ensures
        columns.len() >= 1,
        all_tokens(columns),
{
    let declarations = declarations_of(text);
    lemma_split_not_empty(squeezed(text), ',');
    assert forall|i: int| 0 <= i < declarations.len() implies is_token(
        (#[trigger] declarations[i]).0,
    ) && is_token(declarations[i].1) by {
        lemma_tokens_of_field(text, i, 0);
        lemma_tokens_of_field(text, i, 1);
    }
    lemma_columns_of_tokens(declarations);
}

/// The texts of the declarations, one for each, in order.
pub open spec fn declaration_texts(declarations: Seq<(Seq<char>, Seq<char>)>) -> Seq<Seq<char>> {
    declarations.map_values(|declaration: (Seq<char>, Seq<char>)| declaration_text(declaration))
}

/// Squeezing takes the space out of the separator of a schema description.
proof fn lemma_squeezed_separator()
    ensures
        squeezed(", "@) == seq![','],
{
    reveal_strlit(", ");
    let keep = |c: char| !is_whitespace(c);
    assert(", "@ =~= Seq::<char>::empty().push(',').push(' '));
    Seq::<char>::empty().lemma_filter_push(',', keep);
    Seq::<char>::empty().push(',').lemma_filter_push(' ', keep);
    assert(Seq::<char>::empty().filter(keep) =~= Seq::<char>::empty()) by {
        reveal(Seq::filter);
    }
}

/// The fields of a description that states `declarations` are the texts of the declarations.
proof fn lemma_fields_of_schema_text(declarations: Seq<(Seq<char>, Seq<char>)>)
    requires
        declarations.len() >= 1,
        forall|i: int|
            0 <= i < declarations.len() ==> is_token((#[trigger] declarations[i]).0) && is_token(
                declarations[i].1,
            ),
    ensures
        fields_of(schema_text(declarations)) == declaration_texts(declarations),
{
    let fields = declaration_texts(declarations);
    assert forall|i: int| 0 <= i < fields.len() implies squeezed(#[trigger] fields[i])
        == fields[i] by {
        lemma_tokens_of_declaration(declarations[i].0, declarations[i].1);
        lemma_squeezed_solid(fields[i]);
    }
    assert forall|i: int| 0 <= i < fields.len() implies is_free_of(#[trigger] fields[i], ',') by {
        lemma_tokens_of_declaration(declarations[i].0, declarations[i].1);
    }
    lemma_squeezed_separator();
    lemma_squeezed_joined(fields, ", "@);
    assert(fields.map_values(|part: Seq<char>| squeezed(part)) =~= fields);
    lemma_split_joined(fields, ',');
}

/// Parsing keeps what was declared: a description that states declarations with distinct
/// names, as `n1:t1, n2:t2` and so on, parses to those names and types in the order in which
/// they stand, and so renders to them, as `n1 t1, n2 t2`.
pub proof fn lemma_parse_keeps_declarations(declarations: Seq<(Seq<char>, Seq<char>)>)
    requires
        declarations.len() >= 1,
        forall|i: int|
            0 <= i < declarations.len() ==> is_token((#[trigger] declarations[i]).0) && is_token(
                declarations[i].1,
            ),
        distinct_names(declarations),
    ensures
        parsed(schema_text(declarations)) == Some(declarations),
        rendered(parsed(schema_text(declarations))->0) == rendered(declarations),
{
    let text = schema_text(declarations);
    let fields = declaration_texts(declarations);
    lemma_fields_of_schema_text(declarations);
    assert forall|i: int| 0 <= i < fields.len() implies tokens_of(#[trigger] fields[i]) == seq![
        declarations[i].0,
        declarations[i].1,
    ] by {
        lemma_tokens_of_declaration(declarations[i].0, declarations[i].1);
    }
    assert(declarations_of(text) =~= declarations);
    lemma_columns_of_distinct(declarations);
}

} // verus!
