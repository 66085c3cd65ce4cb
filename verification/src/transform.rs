//! From the lines of one batch to the value list of its insert statement.

use crate::text::{joined, trim, trimmed};
use rayon::iter::ParallelBridge;
use rayon::iter::ParallelIterator;
use vstd::prelude::*;
use vstd::string::*;

verus! {

/// What one line contributes to a value list: nothing if it is blank, else its trimmed text in
/// parentheses, passed through as it is.
pub open spec fn fragment_of(line: Seq<char>) -> Option<Seq<char>> {
    if trimmed(line).len() == 0 {
        None
    } else {
        Some("("@ + trimmed(line) + ")"@)
    }
}

/// The fragments of a batch, in the order of its lines.
pub open spec fn fragments_of(batch: Seq<Seq<char>>) -> Seq<Seq<char>> {
    batch.filter_map(|line: Seq<char>| fragment_of(line))
}

/// `order` holds the same texts as `items`, each as often, in whatever order.
pub open spec fn is_arrangement(order: Seq<Seq<char>>, items: Seq<Seq<char>>) -> bool {
    order.to_multiset() == items.to_multiset()
}

/// `values` is the fragments of `batch`, in some order, joined by a comma and a space.
pub open spec fn is_value_list(values: Seq<char>, batch: Seq<Seq<char>>) -> bool {
    exists|order: Seq<Seq<char>>| #[trigger]
        is_arrangement(order, fragments_of(batch)) && values == joined(order, ", "@)
}

/// What transforming `batch` may give: nothing where every line is blank, else a value list.
pub open spec fn is_transform_of(values: Option<Seq<char>>, batch: Seq<Seq<char>>) -> bool {
    match values {
        None => fragments_of(batch).len() == 0,
        Some(list) => fragments_of(batch).len() > 0 && is_value_list(list, batch),
    }
}

/// What `line` contributes to a value list.
pub fn fragment(line: &str) -> (out: Option<String>)
    ensures
        out.deep_view() == fragment_of(line@),
{
    let inner = trim(line);
    if inner.unicode_len() == 0 {
        None
    } else {
        let mut out = String::from_str("(");
        out.append(inner);
        out.append(")");
        Some(out)
    }
}

/// Two value lists as one: `left`, a comma and a space, `right`.
pub fn join_pair(left: String, right: String) -> (both: String)
    ensures
        both@ == left@ + ", "@ + right@,
{
    let mut both = left;
    both.append(", ");
    both.append(right.as_str());
    both
}

/// Hands the lines of `batch` to rayon: `par_bridge` spreads them over the worker pool,
/// `filter_map` applies [`fragment`] to each line and keeps what it gives, and `reduce_with`
/// folds what was kept with [`join_pair`]. Each line is taken once. Neither the order in which
/// the lines reach the workers nor the order in which the fold pairs them is fixed, so the
/// contract speaks of the fragments in some order. With nothing kept the fold gives `None`.
#[verifier::external_body]
fn reduce_fragments(batch: Vec<String>) -> (values: Option<String>)
    ensures
        is_transform_of(values.deep_view(), batch.deep_view()),
{
    batch.into_iter().par_bridge().filter_map(|line| fragment(&line)).reduce_with(
        |left, right| join_pair(left, right),
    )
}

/// The value list of `batch`, computed in parallel over its lines; `None` where every line is
/// blank. The order of the fragments within the list is not fixed.
pub fn transform(batch: Vec<String>) -> (values: Option<String>)
    ensures
        is_transform_of(values.deep_view(), batch.deep_view()),
{
    reduce_fragments(batch)
}

} // verus!
