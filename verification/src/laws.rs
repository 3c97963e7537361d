use crate::errors::TextError;
use crate::model::{joined, lemma_joined_push, TextModel};
use crate::relay::{
    delimit_plan, delimiter_calls, enumerate_plan, item_calls, lemma_calls_push,
    lemma_delimit_plan_next, lemma_enumerate_plan_next, Step,
};
use crate::text_builder::{delimit_relay, enumerate_relay, indented_outcome, leaves_block, wrote};
use vstd::prelude::*;

verus! {

/// Two calls of `newline` in a row, on a builder without indents, put two line breaks
/// behind the text and nothing else.
pub proof fn law_newline_twice<B: View<V = TextModel>>(
    start: TextModel,
    first: Result<B, TextError>,
    second: Result<B, TextError>,
)
    requires
        start.indents.len() == 0,
        first matches Ok(mid) && wrote(start, start.line_start(), first) && wrote(
            mid@,
            mid@.line_start(),
            second,
        ),
        second is Ok,
    ensures
        second->Ok_0@ == start.append(start.line_break + start.line_break),
        start.newline().newline() == start.append(start.line_break + start.line_break),
{
    assert(start.text + start.line_break + start.line_break =~= start.text + (start.line_break
        + start.line_break));
}

/// Inside a block that is nested in another, `newline` writes the line break, then the
/// indents that were there before, then the indent of the outer block, then that of
/// the inner one.
pub proof fn law_nested_line_start(before: TextModel, outer: Seq<char>, inner: Seq<char>)
    ensures
        before.push_indent(outer).push_indent(inner).line_start() == before.line_break
            + before.indentation() + outer + inner,
        before.push_indent(outer).push_indent(inner).newline().text == before.text
            + before.line_break + before.indentation() + outer + inner,
{
    lemma_joined_push(before.indents, outer);
    lemma_joined_push(before.indents.push(outer), inner);
}

/// When the inner of two nested blocks is left, the indent of the outer block is the
/// innermost again, and when that one is left, the indents are those from before.
pub proof fn law_nested_exit(before: TextModel, outer: Seq<char>, inner: Seq<char>)
    ensures
        before.push_indent(outer).push_indent(inner).pop_indent() == before.push_indent(outer),
        before.push_indent(outer).pop_indent() == before,
{
    assert(before.indents.push(outer).push(inner).drop_last() =~= before.indents.push(outer));
    assert(before.indents.push(outer).drop_last() =~= before.indents);
}

/// A block whose body hands the indents on as it got them leaves the builder with the
/// indents it had before the block: whatever the body wrote, the indent of the block is
/// gone when the block returns.
pub proof fn law_block_restores_indents<B: View<V = TextModel>, F: Fn(B) -> Result<B, TextError>>(
    before: TextModel,
    indent: Seq<char>,
    body: F,
    out: Result<B, TextError>,
)
    requires
        indented_outcome(before, indent, body, out),
        forall|inner: B, done: Result<B, TextError>| #[trigger]
            call_ensures(body, (inner,), done) ==> (done matches Ok(end) ==> end@.indents
                == inner@.indents),
    ensures
        out matches Ok(after) ==> after@.indents == before.indents,
{
    let (inner, done) = choose|inner: B, done: Result<B, TextError>|
        inner@ == before.push_indent(indent) && #[trigger] call_ensures(body, (inner,), done)
            && leaves_block(done, out);
    if out is Ok {
        let end = done->Ok_0;
        assert(end@.indents == before.indents.push(indent));
        assert(before.indents.push(indent).drop_last() =~= before.indents);
    }
}

/// A new line break changes nothing that the sink holds: a `newline` before the
/// change has written the old line break, and one behind it writes the new one.
pub proof fn law_line_break_replaced(before: TextModel, line_break: Seq<char>)
    ensures
        before.newline().with_line_break(line_break).text == before.newline().text,
        before.newline().with_line_break(line_break).newline().text == before.text
            + before.line_break + before.indentation() + line_break + before.indentation(),
{
    let later = before.newline().with_line_break(line_break);
    assert(later.indents == before.indents);
    assert(later.newline().text =~= before.newline().text + line_break + before.indentation());
}

/// Over `n` items `enumerate` calls the item function `n` times, once for each
/// position in order, and nothing else.
pub proof fn law_enumerate_calls(n: nat)
    ensures
        enumerate_plan(n).len() == n,
        item_calls(enumerate_plan(n)) == n,
        delimiter_calls(enumerate_plan(n)) == 0,
        forall|i: int| 0 <= i < n ==> #[trigger] enumerate_plan(n)[i] == Step::Item(i),
    decreases n,
{
    if n > 0 {
        let m = (n - 1) as nat;
        law_enumerate_calls(m);
        lemma_enumerate_plan_next(m);
        assert(enumerate_plan(n).drop_last() =~= enumerate_plan(m));
    }
}

/// Over no item `enumerate` returns the builder it was handed, and nothing else.
pub proof fn law_enumerate_nothing<B, T, F: Fn(B, usize, T) -> Result<B, TextError>>(
    per_item: F,
    items: Seq<T>,
    start: B,
    out: Result<B, TextError>,
)
    requires
        items.len() == 0,
    ensures
        enumerate_relay(per_item, items).runs(enumerate_plan(items.len()), start, out) <==> out
            == Ok::<B, TextError>(start),
{
    enumerate_relay(per_item, items).lemma_runs_nothing(start, out);
}

/// Over no item `delimit` returns the builder it was handed, and over one item what
/// the item function returns on that builder: the delimiter is not called.
pub proof fn law_delimit_few<
    B,
    T,
    D: Fn(B) -> Result<B, TextError>,
    F: Fn(B, usize, T) -> Result<B, TextError>,
>(delimit: D, per_item: F, items: Seq<T>, start: B, out: Result<B, TextError>)
    requires
        items.len() <= 1,
    ensures
        items.len() == 0 ==> (delimit_relay(delimit, per_item, items).runs(
            delimit_plan(items.len()),
            start,
            out,
        ) <==> out == Ok::<B, TextError>(start)),
        items.len() == 1 ==> (delimit_relay(delimit, per_item, items).runs(
            delimit_plan(items.len()),
            start,
            out,
        ) <==> call_ensures(per_item, (start, 0usize, items[0]), out)),
{
    let relay = delimit_relay(delimit, per_item, items);
    if items.len() == 0 {
        relay.lemma_runs_nothing(start, out);
    } else {
        lemma_delimit_plan_next(0);
        relay.lemma_runs_once(Step::Item(0), start, out);
    }
}

/// Over `n` items `delimit` calls the item function `n` times and the delimiter
/// `n - 1` times, and not at all for no item or one.
pub proof fn law_delimit_calls(n: nat)
    ensures
        item_calls(delimit_plan(n)) == n,
        delimiter_calls(delimit_plan(n)) == if n <= 1 {
            0
        } else {
            n - 1
        },
    decreases n,
{
    if n == 1 {
        lemma_delimit_plan_next(0);
        lemma_calls_push(Seq::empty(), Step::Item(0));
    } else if n > 1 {
        let m = (n - 1) as nat;
        law_delimit_calls(m);
        lemma_delimit_plan_next(m);
        lemma_calls_push(delimit_plan(m), Step::Delimiter);
        lemma_calls_push(delimit_plan(m).push(Step::Delimiter), Step::Item(m as int));
    }
}

/// Every call of the delimiter that `delimit` makes stands between the calls for two
/// items that follow each other: the plan begins and ends with an item, and the
/// delimiter at `2 * k + 1` has the item at position `k` before it and the item at
/// position `k + 1` behind it.
pub proof fn law_delimit_between(n: nat)
    ensures
        n > 0 ==> delimit_plan(n).len() == 2 * n - 1,
        n > 0 ==> delimit_plan(n).first() == Step::Item(0) && delimit_plan(n).last()
            == Step::Item(n - 1),
        forall|j: int|
            0 <= j < delimit_plan(n).len() && #[trigger] delimit_plan(n)[j] is Delimiter ==> {
                let k = (j - 1) / 2;
                &&& j == 2 * k + 1
                &&& 0 <= k < n - 1
                &&& delimit_plan(n)[j - 1] == Step::Item(k)
                &&& delimit_plan(n)[j + 1] == Step::Item(k + 1)
            },
        forall|k: int| 0 <= k < n ==> #[trigger] delimit_plan(n)[2 * k] == Step::Item(k),
{
}

} // verus!
