use crate::appendable::Appendable;
use crate::errors::TextError;
use crate::model::TextModel;
use crate::render::{decode, formatted};
use crate::sink::{formatter_written, Sink};
use crate::text_builder::{TextBuilder, TextFormatterBuilder};
use crate::text_builder_config::TextBuilderConfig;
use core::fmt::Write;
use vstd::prelude::*;
use vstd::utf8::valid_utf8;

verus! {

/// A builder that writes to a borrowed formatter: the builder to use inside `fmt`. The
/// formatter may refuse a write, and the operation that made the write then fails.
///
/// What the formatter holds when the borrow ends is what the last builder of a chain
/// holds: each operation that this type implements itself returns a builder over the
/// same formatter, and says so.
pub struct FormatterBuilder<'b, 'f> {
    /// The sink.
    pub formatter: &'b mut core::fmt::Formatter<'f>,
    /// The line break and the indents.
    pub config: TextBuilderConfig,
}

impl<'b, 'f> View for FormatterBuilder<'b, 'f> {
    type V = TextModel;

    open spec fn view(&self) -> TextModel {
        self.config.model(formatter_written(self.formatter), false)
    }
}

/// Whether `out` can come of running `build` inside `fmt`, on a formatter that held
/// `written`: `build` ran once, on a new builder over that formatter, and `out` is
/// `Ok`, or the failure that `build` returned, as a `core::fmt::Error`.
pub open spec fn formatted_with<'b, 'f: 'b, F: Fn(FormatterBuilder<'b, 'f>) -> Result<
    FormatterBuilder<'b, 'f>,
    TextError,
>>(written: Seq<char>, build: F, out: Result<(), core::fmt::Error>) -> bool {
    exists|start: FormatterBuilder<'b, 'f>, done: Result<FormatterBuilder<'b, 'f>, TextError>|
        start@ == TextModel::over(written, false) && #[trigger] call_ensures(
            build,
            (start,),
            done,
        ) && match done {
            Ok(_) => out is Ok,
            Err(e) => out == Err::<(), core::fmt::Error>(e.as_fmt_error()),
        }
}

/// Whether `out` can come of showing `build` into a new string: `build` ran once, on a
/// new builder over a formatter that held nothing, and `out` is the text that the
/// builder it returned had written, or, where `build` failed, the failure as a
/// `core::fmt::Error`.
pub open spec fn shown_by<F>(build: F, out: Result<String, core::fmt::Error>) -> bool where
    F: for<'b, 'f> Fn(FormatterBuilder<'b, 'f>) -> Result<FormatterBuilder<'b, 'f>, TextError>,
{
    exists|start: FormatterBuilder, done: Result<FormatterBuilder, TextError>|
        start@ == TextModel::fresh(false) && #[trigger] call_ensures(build, (start,), done)
            && match done {
            Ok(end) => out matches Ok(text) && text@ == end@.text,
            Err(e) => out == Err::<String, core::fmt::Error>(e.as_fmt_error()),
        }
}

/// `core::fmt::from_fn`, shown with `{}` into a new string. The value that `from_fn`
/// makes hands the formatter it is shown with to the function it was made from, here
/// `write_with` with `build`; the formatter writes to the new string, so that it holds
/// nothing when `build` starts and the string is what `build` wrote when it ends. A
/// failure of `build` comes back as the failure of the showing.
#[verifier::external_body]
fn show_built<F>(build: &F) -> (r: Result<String, core::fmt::Error>) where
    F: for<'b, 'f> Fn(FormatterBuilder<'b, 'f>) -> Result<FormatterBuilder<'b, 'f>, TextError>,

    requires
        forall|start: FormatterBuilder|
            start@ == TextModel::fresh(false) ==> #[trigger] call_requires(*build, (start,)),
    ensures
        shown_by(*build, r),
{
    let mut text = String::new();
    let shown = core::fmt::from_fn(
        |f: &mut core::fmt::Formatter<'_>| FormatterBuilder::write_with(f, build),
    );
    match write!(text, "{}", shown) {
        Ok(()) => Ok(text),
        Err(err) => Err(err),
    }
}

impl FormatterBuilder<'_, '_> {
    /// Runs `build` on a new builder over a formatter that writes to a new string, and
    /// returns that string. Where `build` fails, no text is returned: the failure comes
    /// back the way a failed `fmt` does, as `TextError::Formatting`.
    pub fn build_string<F>(build: F) -> (r: Result<String, TextError>) where
        F: for<'b, 'f> Fn(FormatterBuilder<'b, 'f>) -> Result<FormatterBuilder<'b, 'f>, TextError>,

        requires
            forall|start: FormatterBuilder|
                start@ == TextModel::fresh(false) ==> #[trigger] call_requires(build, (start,)),
        ensures
            Self::built(build, r),
    {
        formatted(show_built(&build))
    }

    /// Whether `out` can come of building with `build`: `build` ran once, on a new
    /// builder over a formatter that held nothing, and `out` is the text that the
    /// builder it returned had written, or `TextError::Formatting` where it failed.
    pub open spec fn built<F>(build: F, out: Result<String, TextError>) -> bool where
        F: for<'b, 'f> Fn(FormatterBuilder<'b, 'f>) -> Result<FormatterBuilder<'b, 'f>, TextError>,
    {
        exists|start: FormatterBuilder, done: Result<FormatterBuilder, TextError>|
            start@ == TextModel::fresh(false) && #[trigger] call_ensures(build, (start,), done)
                && match done {
                Ok(end) => out matches Ok(text) && text@ == end@.text,
                Err(e) => out == Err::<String, TextError>(
                    TextError::Formatting(e.as_fmt_error()),
                ),
            }
    }
}

impl<'b, 'f> FormatterBuilder<'b, 'f> {
    /// A builder that writes behind what `formatter` holds, with a line break of one
    /// `\n` and no indent.
    pub fn new(formatter: &'b mut core::fmt::Formatter<'f>) -> (r: Self)
        ensures
            r@ == TextModel::over(formatter_written(old(formatter)), false),
            *final(r.formatter) == *final(formatter),
    {
        FormatterBuilder { formatter, config: TextBuilderConfig::new() }
    }

    /// Runs `build` on a new builder over `formatter` and reports how it went in the
    /// way `fmt` does: this is the body of a `fmt` that builds its text fluently.
    pub fn write_with<F>(formatter: &'b mut core::fmt::Formatter<'f>, build: F) -> (r: Result<
        (),
        core::fmt::Error,
    >) where F: Fn(Self) -> Result<Self, TextError>
        requires
            forall|start: Self|
                start@ == TextModel::over(formatter_written(old(formatter)), false)
                    ==> #[trigger] call_requires(build, (start,)),
        ensures
            formatted_with(formatter_written(old(formatter)), build, r),
    {
        let builder = Self::new(formatter);
        match build(builder) {
            Ok(_) => Ok(()),
            Err(e) => Err(core::fmt::Error::from(e)),
        }
    }
}

impl<'b, 'f> TextBuilder for FormatterBuilder<'b, 'f> {
    fn newline(self) -> (r: Result<Self, TextError>)
        ensures
            r matches Ok(after) ==> *final(after.formatter) == *final(self.formatter),
    {
        let mut builder = self;
        match builder.config.write_line_start(builder.formatter) {
            Ok(()) => {
                proof {
                    assert(formatter_written(builder.formatter) =~= formatter_written(
                        old(self.formatter),
                    ) + self@.line_start());
                }
                Ok(builder)
            },
            Err(e) => Err(e),
        }
    }

    fn str(self, s: &str) -> (r: Result<Self, TextError>)
        ensures
            r matches Ok(after) ==> *final(after.formatter) == *final(self.formatter),
    {
        let mut builder = self;
        match s.write_to(builder.formatter) {
            Ok(()) => Ok(builder),
            Err(e) => Err(e),
        }
    }

    fn char(self, ch: char) -> (r: Result<Self, TextError>)
        ensures
            r matches Ok(after) ==> *final(after.formatter) == *final(self.formatter),
    {
        let mut builder = self;
        match builder.formatter.put_char(ch) {
            Ok(()) => {
                proof {
                    assert(formatter_written(builder.formatter) =~= formatter_written(
                        old(self.formatter),
                    ) + seq![ch]);
                }
                Ok(builder)
            },
            Err(e) => Err(e),
        }
    }

    fn append<A: Appendable>(self, value: A) -> (r: Result<Self, TextError>)
        ensures
            r matches Ok(after) ==> *final(after.formatter) == *final(self.formatter),
    {
        let mut builder = self;
        match value.write_to(builder.formatter) {
            Ok(()) => Ok(builder),
            Err(e) => Err(e),
        }
    }

    fn set_newline<N: Appendable>(self, newline: N) -> (r: Result<Self, TextError>)
        ensures
            r matches Ok(after) ==> *final(after.formatter) == *final(self.formatter),
    {
        let mut builder = self;
        builder.config.set_newline(newline);
        Ok(builder)
    }

    fn utf8_bytes(self, bytes: &[u8]) -> (r: Result<Self, TextError>)
        ensures
            r matches Ok(after) ==> *final(after.formatter) == *final(self.formatter),
            !valid_utf8(bytes@) ==> formatter_written(final(self.formatter)) == formatter_written(
                old(self.formatter),
            ),
    {
        match decode(bytes) {
            Ok(text) => self.str(text),
            Err(e) => Err(e),
        }
    }

    fn indented<I: Appendable, F: Fn(Self) -> Result<Self, TextError>>(
        self,
        indent: I,
        body: F,
    ) -> (r: Result<Self, TextError>) {
        let mut inner = self;
        inner.config.push_indent(indent);
        let done = body(inner);
        match done {
            Ok(end) => {
                let mut after = end;
                after.config.pop_indent();
                Ok(after)
            },
            Err(e) => Err(e),
        }
    }
}

impl<'b, 'f> TextFormatterBuilder for FormatterBuilder<'b, 'f> {

}

} // verus!
