use crate::appendable::Appendable;
use crate::errors::TextError;
use crate::model::TextModel;
use crate::render::decode;
use crate::sink::Sink;
use crate::text_builder::TextBuilder;
use crate::text_builder_config::TextBuilderConfig;
use vstd::prelude::*;
use vstd::utf8::valid_utf8;

verus! {

/// A builder that owns its sink, a string. A string accepts every write, so nothing
/// that this builder does on its own can fail.
pub struct StringBuilder {
    /// The text built so far.
    pub string: String,
    /// The line break and the indents.
    pub config: TextBuilderConfig,
}

impl View for StringBuilder {
    type V = TextModel;

    open spec fn view(&self) -> TextModel {
        self.config.model(self.string@, true)
    }
}

impl StringBuilder {
    /// A builder over an empty string, with a line break of one `\n` and no indent.
    pub fn new() -> (r: Self)
        ensures
            r@ == TextModel::fresh(true),
    {
        StringBuilder { string: String::new(), config: TextBuilderConfig::new() }
    }

    /// Runs `build` on a new builder and returns the text it has built. Where `build`
    /// fails, its failure is returned and no text.
    pub fn build_string<B>(build: B) -> (r: Result<String, TextError>) where
        B: Fn(Self) -> Result<Self, TextError>,

        requires
            forall|start: Self|
                start@ == TextModel::fresh(true) ==> #[trigger] call_requires(build, (start,)),
        ensures
            Self::built(build, r),
    {
        let builder = Self::new();
        match build(builder) {
            Ok(end) => Ok(end.string),
            Err(e) => Err(e),
        }
    }

    /// Whether `out` can come of building with `build`: `build` ran once, on a new
    /// builder over an empty string, and `out` is the text that the builder it returned
    /// had built, or the failure that it returned.
    pub open spec fn built<B: Fn(StringBuilder) -> Result<StringBuilder, TextError>>(
        build: B,
        out: Result<String, TextError>,
    ) -> bool {
        exists|start: StringBuilder, done: Result<StringBuilder, TextError>|
            start@ == TextModel::fresh(true) && #[trigger] call_ensures(build, (start,), done)
                && match done {
                Ok(end) => out matches Ok(text) && text@ == end@.text,
                Err(e) => out == Err::<String, TextError>(e),
            }
    }
}

impl Default for StringBuilder {
    fn default() -> (r: Self)
        ensures
            r@ == TextModel::fresh(true),
    {
        Self::new()
    }
}

impl TextBuilder for StringBuilder {
    fn newline(self) -> (r: Result<Self, TextError>)
        ensures
            r is Ok,
    {
        let mut builder = self;
        match builder.config.write_line_start(&mut builder.string) {
            Ok(()) => {
                proof {
                    assert(builder.string@ =~= self.string@ + self@.line_start());
                }
                Ok(builder)
            },
            Err(e) => Err(e),
        }
    }

    fn str(self, s: &str) -> (r: Result<Self, TextError>)
        ensures
            r is Ok,
    {
        let mut builder = self;
        match s.write_to(&mut builder.string) {
            Ok(()) => Ok(builder),
            Err(e) => Err(e),
        }
    }

    fn char(self, ch: char) -> (r: Result<Self, TextError>)
        ensures
            r is Ok,
    {
        let mut builder = self;
        match builder.string.put_char(ch) {
            Ok(()) => {
                proof {
                    assert(builder.string@ =~= self.string@ + seq![ch]);
                }
                Ok(builder)
            },
            Err(e) => Err(e),
        }
    }

    fn append<A: Appendable>(self, value: A) -> (r: Result<Self, TextError>)
        ensures
            r is Ok,
    {
        let mut builder = self;
        match value.write_to(&mut builder.string) {
            Ok(()) => Ok(builder),
            Err(e) => Err(e),
        }
    }

    fn set_newline<N: Appendable>(self, newline: N) -> (r: Result<Self, TextError>) {
        let mut builder = self;
        builder.config.set_newline(newline);
        Ok(builder)
    }

    fn utf8_bytes(self, bytes: &[u8]) -> (r: Result<Self, TextError>)
        ensures
            valid_utf8(bytes@) ==> r is Ok,
    {
        match decode(bytes) {
            Ok(text) => self.str(text),
            Err(e) => Err(e),
        }
    }

    fn indented<I: Appendable, F: Fn(Self) -> Result<Self, TextError>>(
        self,
        indent: I,
        body: F,
    ) -> (r: Result<Self, TextError>) {
        let mut inner = self;
        inner.config.push_indent(indent);
        let done = body(inner);
        match done {
            Ok(end) => {
                let mut after = end;
                after.config.pop_indent();
                Ok(after)
            },
            Err(e) => Err(e),
        }
    }
}

} // verus!
