use crate::appendable::Appendable;
use crate::errors::TextError;
use crate::model::TextModel;
use crate::relay::{
    delimit_plan, enumerate_plan, lemma_delimit_plan_next, lemma_delimit_plan_prefix,
    lemma_enumerate_plan_next, lemma_enumerate_plan_prefix, Relay, Step,
};
use crate::render::{arguments_text, debug_text, display_text};
use vstd::prelude::*;
use vstd::std_specs::iter::IteratorSpec;
use vstd::utf8::{decode_utf8, valid_utf8};

verus! {

/// Whether `out` is what writing `text` to the sink of `before` can return: the builder
/// with `text` behind what its sink held and nothing else changed, or, from a sink that
/// is not reliable, a refusal.
pub open spec fn wrote<B: View<V = TextModel>>(
    before: TextModel,
    text: Seq<char>,
    out: Result<B, TextError>,
) -> bool {
    match out {
        Ok(after) => after@ == before.append(text),
        Err(e) => e is Formatting && !before.reliable,
    }
}

/// Whether `out` is what writing a value that formats itself can return: the builder
/// with some text behind what its sink held and nothing else changed, or a failure of
/// the value or of the sink.
pub open spec fn wrote_some<B: View<V = TextModel>>(
    before: TextModel,
    out: Result<B, TextError>,
) -> bool {
    match out {
        Ok(after) => exists|text: Seq<char>| after@ == #[trigger] before.append(text),
        Err(e) => e is Formatting,
    }
}

/// Whether `out` is what comes of an indented block whose body returned `done`: the
/// builder of the body without its innermost indent, or the failure of the body.
pub open spec fn leaves_block<B: View<V = TextModel>>(
    done: Result<B, TextError>,
    out: Result<B, TextError>,
) -> bool {
    match done {
        Ok(end) => out matches Ok(after) && after@ == end@.pop_indent(),
        Err(e) => out == Err::<B, TextError>(e),
    }
}

/// Whether `out` can come of `indented` on `before`: `body` ran once, on a builder that
/// is `before` with `indent` as its innermost indent, and what it returned left the
/// block.
pub open spec fn indented_outcome<B: View<V = TextModel>, F: Fn(B) -> Result<B, TextError>>(
    before: TextModel,
    indent: Seq<char>,
    body: F,
    out: Result<B, TextError>,
) -> bool {
    exists|inner: B, done: Result<B, TextError>|
        inner@ == before.push_indent(indent) && #[trigger] call_ensures(body, (inner,), done)
            && leaves_block(done, out)
}

/// The calls of `enumerate`: `per_item` on each item of `items` with its position.
pub open spec fn enumerate_relay<B, T, F: Fn(B, usize, T) -> Result<B, TextError>>(
    per_item: F,
    items: Seq<T>,
) -> Relay<B> {
    Relay {
        item_requires: |i: int, b: B| call_requires(per_item, (b, i as usize, items[i])),
        item_ensures: |i: int, b: B, out: Result<B, TextError>|
            call_ensures(per_item, (b, i as usize, items[i]), out),
        delimiter_requires: |b: B| true,
        delimiter_ensures: |b: B, out: Result<B, TextError>| out == Ok::<B, TextError>(b),
    }
}

/// The calls of `delimit`: `per_item` on each item of `items` with its position, and
/// `delimit` for the delimiter.
pub open spec fn delimit_relay<
    B,
    T,
    D: Fn(B) -> Result<B, TextError>,
    F: Fn(B, usize, T) -> Result<B, TextError>,
>(delimit: D, per_item: F, items: Seq<T>) -> Relay<B> {
    Relay {
        item_requires: |i: int, b: B| call_requires(per_item, (b, i as usize, items[i])),
        item_ensures: |i: int, b: B, out: Result<B, TextError>|
            call_ensures(per_item, (b, i as usize, items[i]), out),
        delimiter_requires: |b: B| call_requires(delimit, (b,)),
        delimiter_ensures: |b: B, out: Result<B, TextError>| call_ensures(delimit, (b,), out),
    }
}

/// The calls of `append_delimit`: `per_item` on each item of `items` with its
/// position, and a write of `delimiter` for the delimiter.
pub open spec fn append_delimit_relay<
    B: View<V = TextModel>,
    T,
    F: Fn(B, usize, T) -> Result<B, TextError>,
>(delimiter: Seq<char>, per_item: F, items: Seq<T>) -> Relay<B> {
    Relay {
        item_requires: |i: int, b: B| call_requires(per_item, (b, i as usize, items[i])),
        item_ensures: |i: int, b: B, out: Result<B, TextError>|
            call_ensures(per_item, (b, i as usize, items[i]), out),
        delimiter_requires: |b: B| true,
        delimiter_ensures: |b: B, out: Result<B, TextError>| wrote(b@, delimiter, out),
    }
}

/// A fluent builder of text: each operation takes the builder and returns it with the
/// operation done, or fails, and a builder that has failed is gone.
pub trait TextBuilder: Sized + View<V = TextModel> {
    /// Starts a new line: writes the line break, then every indent, outermost first.
    fn newline(self) -> (r: Result<Self, TextError>)
        ensures
            wrote(self@, self@.line_start(), r),
    ;

    /// Writes `s`.
    fn str(self, s: &str) -> (r: Result<Self, TextError>)
        ensures
            wrote(self@, s@, r),
    ;

    /// Writes `ch`.
    fn char(self, ch: char) -> (r: Result<Self, TextError>)
        ensures
            wrote(self@, seq![ch], r),
    ;

    /// Writes the text of `value`.
    fn append<A: Appendable>(self, value: A) -> (r: Result<Self, TextError>)
        ensures
            wrote(self@, value.rendered(), r),
    ;

    /// Makes the text of `newline` the line break. What the sink holds stays as it is:
    /// only the calls of `newline` that follow write the new line break.
    fn set_newline<N: Appendable>(self, newline: N) -> (r: Result<Self, TextError>)
        ensures
            r matches Ok(after) && after@ == self@.with_line_break(newline.rendered()),
    ;

    /// Reads `bytes` as UTF-8 and writes the text they encode. Bytes that are no valid
    /// UTF-8 are refused with `TextError::Utf8Error`.
    fn utf8_bytes(self, bytes: &[u8]) -> (r: Result<Self, TextError>)
        ensures
            valid_utf8(bytes@) ==> wrote(self@, decode_utf8(bytes@), r),
            !valid_utf8(bytes@) ==> (r matches Err(e) && e is Utf8Error),
    ;

    /// Runs `body` on this builder with the text of `indent` as its innermost indent,
    /// and takes the innermost indent off the builder that `body` returns.
    fn indented<I: Appendable, F: Fn(Self) -> Result<Self, TextError>>(
        self,
        indent: I,
        body: F,
    ) -> (r: Result<Self, TextError>)
        requires
            forall|inner: Self|
                inner@ == self@.push_indent(indent.rendered()) ==> #[trigger] call_requires(
                    body,
                    (inner,),
                ),
        ensures
            indented_outcome(self@, indent.rendered(), body, r),
    ;

    /// Writes the text that a formatting has made, or fails with the failure of the
    /// formatting: the second half of `debug`, `display` and `args`, whose first half is
    /// the `fmt` of the value.
    fn formatted_text(self, outcome: Result<String, core::fmt::Error>) -> (r: Result<
        Self,
        TextError,
    >)
        ensures
            match outcome {
                Ok(text) => wrote(self@, text@, r),
                Err(err) => r == Err::<Self, TextError>(TextError::Formatting(err)),
            },
    {
        match outcome {
            Ok(text) => self.str(text.as_str()),
            Err(err) => Err(TextError::Formatting(err)),
        }
    }

    /// Writes `value` as its `Debug` form: the text that its `fmt` makes.
    fn debug<D: core::fmt::Debug>(self, value: &D) -> (r: Result<Self, TextError>)
        ensures
            wrote_some(self@, r),
    {
        self.formatted_text(debug_text(value))
    }

    /// Writes `value` as its `Display` form: the text that its `fmt` makes.
    fn display<D: core::fmt::Display>(self, value: &D) -> (r: Result<Self, TextError>)
        ensures
            wrote_some(self@, r),
    {
        self.formatted_text(display_text(value))
    }

    /// Writes a format string with its arguments, as `format_args!` makes them.
    fn args(self, args: core::fmt::Arguments<'_>) -> (r: Result<Self, TextError>)
        ensures
            wrote_some(self@, r),
    {
        self.formatted_text(arguments_text(args))
    }

    /// Writes the text of what `transform` makes of `value`.
    fn value<V, A: Appendable, T: Fn(&V) -> A>(self, value: &V, transform: T) -> (r: Result<
        Self,
        TextError,
    >)
        requires
            call_requires(transform, (value,)),
        ensures
            exists|made: A| #[trigger]
                call_ensures(transform, (value,), made) && wrote(self@, made.rendered(), r),
    {
        let made = transform(value);
        self.append(made)
    }

    /// Calls `per_item` on each item of `iter`, in order, with the builder so far and
    /// the item's position. The first failure ends the run and is returned.
    fn enumerate<I, F>(self, iter: I, per_item: F) -> (r: Result<Self, TextError>) where
        I: Iterator,
        F: Fn(Self, usize, I::Item) -> Result<Self, TextError>,

        requires
            iter.obeys_prophetic_iter_laws(),
            iter.decrease() is Some,
            iter.remaining().len() <= usize::MAX,
            enumerate_relay::<Self, I::Item, F>(per_item, iter.remaining()).ready(
                enumerate_plan(iter.remaining().len()),
                self,
            ),
        ensures
            enumerate_relay::<Self, I::Item, F>(per_item, iter.remaining()).runs(
                enumerate_plan(iter.remaining().len()),
                self,
                r,
            ),
            iter.remaining().len() == 0 ==> r == Ok::<Self, TextError>(self),
    {
        let ghost items = iter.remaining();
        let ghost relay = enumerate_relay::<Self, I::Item, F>(per_item, items);
        let ghost plan = enumerate_plan(items.len());
        let mut builder = self;
        let mut rest = iter;
        let mut i: usize = 0;
        proof {
            relay.lemma_runs_nothing(self, Ok(self));
        }
        loop
            invariant
                rest.obeys_prophetic_iter_laws(),
                rest.decrease() is Some,
                items == iter.remaining(),
                items.len() <= usize::MAX,
                0 <= i <= items.len(),
                rest.remaining() == items.skip(i as int),
                relay == enumerate_relay::<Self, I::Item, F>(per_item, items),
                plan == enumerate_plan(items.len()),
                relay.ready(plan, self),
                relay.runs(enumerate_plan(i as nat), self, Ok(builder)),
                i == 0 ==> builder == self,
            decreases rest.decrease()->0,
        {
            match rest.next() {
                None => {
                    return Ok(builder);
                },
                Some(item) => {
                    let ghost before = builder;
                    let ghost step = Step::Item(i as int);
                    proof {
                        lemma_enumerate_plan_prefix(i as nat, items.len());
                    }
                    let out = per_item(builder, i, item);
                    proof {
                        relay.lemma_runs_on(enumerate_plan(i as nat), step, self, before, out);
                        lemma_enumerate_plan_next(i as nat);
                    }
                    match out {
                        Ok(next) => {
                            builder = next;
                        },
                        Err(e) => {
                            proof {
                                lemma_enumerate_plan_prefix((i + 1) as nat, items.len());
                                relay.lemma_failure_stays(
                                    enumerate_plan((i + 1) as nat),
                                    plan.skip(i + 1),
                                    self,
                                    e,
                                );
                            }
                            return Err(e);
                        },
                    }
                    i = i + 1;
                },
            }
        }
    }

    /// As `enumerate`, with a call of `delimit` before every item but the first: the
    /// delimiter comes between each two items, not before the first and not behind the
    /// last. The first failure ends the run and is returned.
    fn delimit<D, I, F>(self, delimit: D, iter: I, per_item: F) -> (r: Result<
        Self,
        TextError,
    >) where
        D: Fn(Self) -> Result<Self, TextError>,
        I: Iterator,
        F: Fn(Self, usize, I::Item) -> Result<Self, TextError>,

        requires
            iter.obeys_prophetic_iter_laws(),
            iter.decrease() is Some,
            iter.remaining().len() <= usize::MAX,
            delimit_relay::<Self, I::Item, D, F>(delimit, per_item, iter.remaining()).ready(
                delimit_plan(iter.remaining().len()),
                self,
            ),
        ensures
            delimit_relay::<Self, I::Item, D, F>(delimit, per_item, iter.remaining()).runs(
                delimit_plan(iter.remaining().len()),
                self,
                r,
            ),
            iter.remaining().len() == 0 ==> r == Ok::<Self, TextError>(self),
    {
        let ghost items = iter.remaining();
        let ghost relay = delimit_relay::<Self, I::Item, D, F>(delimit, per_item, items);
        let ghost plan = delimit_plan(items.len());
        let mut builder = self;
        let mut rest = iter;
        let mut i: usize = 0;
        proof {
            relay.lemma_runs_nothing(self, Ok(self));
        }
        loop
            invariant
                rest.obeys_prophetic_iter_laws(),
                rest.decrease() is Some,
                items == iter.remaining(),
                items.len() <= usize::MAX,
                0 <= i <= items.len(),
                rest.remaining() == items.skip(i as int),
                relay == delimit_relay::<Self, I::Item, D, F>(delimit, per_item, items),
                plan == delimit_plan(items.len()),
                relay.ready(plan, self),
                relay.runs(delimit_plan(i as nat), self, Ok(builder)),
                i == 0 ==> builder == self,
            decreases rest.decrease()->0,
        {
            match rest.next() {
                None => {
                    return Ok(builder);
                },
                Some(item) => {
                    let ghost mut done = delimit_plan(i as nat);
                    if i > 0 {
                        let ghost before = builder;
                        proof {
                            lemma_delimit_plan_prefix(i as nat, items.len());
                        }
                        let out = delimit(builder);
                        proof {
                            relay.lemma_runs_on(done, Step::Delimiter, self, before, out);
                            done = done.push(Step::Delimiter);
                        }
                        match out {
                            Ok(next) => {
                                builder = next;
                            },
                            Err(e) => {
                                proof {
                                    relay.lemma_failure_stays(done, plan.skip(2 * i), self, e);
                                }
                                return Err(e);
                            },
                        }
                    }
                    let ghost before = builder;
                    let ghost step = Step::Item(i as int);
                    proof {
                        if i > 0 {
                            lemma_delimit_plan_prefix(i as nat, items.len());
                            assert(relay.runs(plan.take(2 * i), self, Ok(before)));
                        } else {
                            assert(relay.runs(plan.take(0), self, Ok(before)));
                        }
                    }
                    let out = per_item(builder, i, item);
                    proof {
                        relay.lemma_runs_on(done, step, self, before, out);
                        lemma_delimit_plan_next(i as nat);
                    }
                    match out {
                        Ok(next) => {
                            builder = next;
                        },
                        Err(e) => {
                            proof {
                                lemma_delimit_plan_prefix((i + 1) as nat, items.len());
                                relay.lemma_failure_stays(
                                    delimit_plan((i + 1) as nat),
                                    plan.skip(2 * (i + 1) - 1),
                                    self,
                                    e,
                                );
                            }
                            return Err(e);
                        },
                    }
                    i = i + 1;
                },
            }
        }
    }

    /// As `delimit`, with the text of `delimiter` written between each two items.
    fn append_delimit<D, I, F>(self, delimiter: D, iter: I, per_item: F) -> (r: Result<
        Self,
        TextError,
    >) where
        D: Appendable,
        I: Iterator,
        F: Fn(Self, usize, I::Item) -> Result<Self, TextError>,

        requires
            iter.obeys_prophetic_iter_laws(),
            iter.decrease() is Some,
            iter.remaining().len() <= usize::MAX,
            append_delimit_relay::<Self, I::Item, F>(
                delimiter.rendered(),
                per_item,
                iter.remaining(),
            ).ready(delimit_plan(iter.remaining().len()), self),
        ensures
            append_delimit_relay::<Self, I::Item, F>(
                delimiter.rendered(),
                per_item,
                iter.remaining(),
            ).runs(delimit_plan(iter.remaining().len()), self, r),
            iter.remaining().len() == 0 ==> r == Ok::<Self, TextError>(self),
    {
        let ghost items = iter.remaining();
        let ghost relay = append_delimit_relay::<Self, I::Item, F>(delimiter.rendered(), per_item, items);
        let ghost plan = delimit_plan(items.len());
        let text = delimiter.to_text();
        let mut builder = self;
        let mut rest = iter;
        let mut i: usize = 0;
        proof {
            relay.lemma_runs_nothing(self, Ok(self));
        }
        loop
            invariant
                rest.obeys_prophetic_iter_laws(),
                rest.decrease() is Some,
                items == iter.remaining(),
                items.len() <= usize::MAX,
                0 <= i <= items.len(),
                rest.remaining() == items.skip(i as int),
                relay == append_delimit_relay::<Self, I::Item, F>(delimiter.rendered(), per_item, items),
                plan == delimit_plan(items.len()),
                text@ == delimiter.rendered(),
                relay.ready(plan, self),
                relay.runs(delimit_plan(i as nat), self, Ok(builder)),
                i == 0 ==> builder == self,
            decreases rest.decrease()->0,
        {
            match rest.next() {
                None => {
                    return Ok(builder);
                },
                Some(item) => {
                    let ghost mut done = delimit_plan(i as nat);
                    if i > 0 {
                        let ghost before = builder;
                        proof {
                            lemma_delimit_plan_prefix(i as nat, items.len());
                        }
                        let out = builder.str(text.as_str());
                        proof {
                            relay.lemma_runs_on(done, Step::Delimiter, self, before, out);
                            done = done.push(Step::Delimiter);
                        }
                        match out {
                            Ok(next) => {
                                builder = next;
                            },
                            Err(e) => {
                                proof {
                                    relay.lemma_failure_stays(done, plan.skip(2 * i), self, e);
                                }
                                return Err(e);
                            },
                        }
                    }
                    let ghost before = builder;
                    let ghost step = Step::Item(i as int);
                    proof {
                        if i > 0 {
                            lemma_delimit_plan_prefix(i as nat, items.len());
                            assert(relay.runs(plan.take(2 * i), self, Ok(before)));
                        } else {
                            assert(relay.runs(plan.take(0), self, Ok(before)));
                        }
                    }
                    let out = per_item(builder, i, item);
                    proof {
                        relay.lemma_runs_on(done, step, self, before, out);
                        lemma_delimit_plan_next(i as nat);
                    }
                    match out {
                        Ok(next) => {
                            builder = next;
                        },
                        Err(e) => {
                            proof {
                                lemma_delimit_plan_prefix((i + 1) as nat, items.len());
                                relay.lemma_failure_stays(
                                    delimit_plan((i + 1) as nat),
                                    plan.skip(2 * (i + 1) - 1),
                                    self,
                                    e,
                                );
                            }
                            return Err(e);
                        },
                    }
                    i = i + 1;
                },
            }
        }
    }
}

/// A builder whose sink is a formatter: whatever it is handed goes straight on to
/// where the formatter writes.
pub trait TextFormatterBuilder: TextBuilder {

}

} // verus!
