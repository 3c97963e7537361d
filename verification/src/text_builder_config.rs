use crate::appendable::Appendable;
use crate::errors::TextError;
use crate::model::{joined, TextModel};
use crate::sink::Sink;
use vstd::prelude::*;

verus! {

/// What a builder keeps beside its sink: the line break and the stack of indents, each
/// as the text that it writes.
pub struct TextBuilderConfig {
    /// Written by every `newline`, before the indents.
    pub newline: String,
    /// Written by every `newline` after the line break, outermost first.
    pub indents: Vec<String>,
}

impl TextBuilderConfig {
    /// The text of the line break.
    pub open spec fn line_break(&self) -> Seq<char> {
        self.newline@
    }

    /// The texts of the indents, outermost first.
    pub open spec fn indent_texts(&self) -> Seq<Seq<char>> {
        self.indents@.map_values(|indent: String| indent@)
    }

    /// The builder that has this configuration over a sink that holds `text`.
    pub open spec fn model(&self, text: Seq<char>, reliable: bool) -> TextModel {
        TextModel { text, line_break: self.line_break(), indents: self.indent_texts(), reliable }
    }

    /// The configuration a builder starts with: a line break of one `\n`, and no indent.
    pub fn new() -> (r: Self)
        ensures
            r.line_break() == seq!['\n'],
            r.indent_texts() == Seq::<Seq<char>>::empty(),
    {
        let mut newline = String::new();
        newline.push('\n');
        TextBuilderConfig { newline, indents: Vec::new() }
    }

    /// Writes the start of a new line to `sink`: the line break, then every indent,
    /// outermost first. Stops at the first write that the sink refuses.
    pub fn write_line_start<S: Sink>(&self, sink: &mut S) -> (r: Result<(), TextError>)
        ensures
            final(sink).reliable() == old(sink).reliable(),
            old(sink).reliable() ==> r is Ok,
            r is Ok ==> final(sink).written() == old(sink).written() + self.line_break() + joined(
                self.indent_texts(),
            ),
            r matches Err(e) ==> e is Formatting,
    {
        match sink.put_str(self.newline.as_str()) {
            Ok(()) => {},
            Err(e) => {
                return Err(e);
            },
        }
        let mut i: usize = 0;
        while i < self.indents.len()
            invariant
                i <= self.indents.len(),
                sink.reliable() == old(sink).reliable(),
                sink.written() == old(sink).written() + self.line_break() + joined(
                    self.indent_texts().take(i as int),
                ),
            decreases self.indents.len() - i,
        {
            proof {
                let texts = self.indent_texts();
                assert(texts.take(i + 1).drop_last() =~= texts.take(i as int));
            }
            match sink.put_str(self.indents[i].as_str()) {
                Ok(()) => {},
                Err(e) => {
                    return Err(e);
                },
            }
            i = i + 1;
        }
        proof {
            let texts = self.indent_texts();
            assert(texts.take(texts.len() as int) =~= texts);
        }
        Ok(())
    }

    /// Replaces the line break by the text of `newline`.
    pub fn set_newline<N: Appendable>(&mut self, newline: N)
        ensures
            final(self).line_break() == newline.rendered(),
            final(self).indent_texts() == old(self).indent_texts(),
    {
        self.newline = newline.to_text();
    }

    /// Makes the text of `indent` the innermost indent.
    pub fn push_indent<I: Appendable>(&mut self, indent: I)
        ensures
            final(self).line_break() == old(self).line_break(),
            final(self).indent_texts() == old(self).indent_texts().push(indent.rendered()),
    {
        let text = indent.to_text();
        self.indents.push(text);
    }

    /// Takes the innermost indent away; without indents nothing changes.
    pub fn pop_indent(&mut self)
        ensures
            final(self).line_break() == old(self).line_break(),
            final(self).indent_texts() == if old(self).indent_texts().len() == 0 {
                old(self).indent_texts()
            } else {
                old(self).indent_texts().drop_last()
            },
    {
        let _ = self.indents.pop();
    }
}

impl Default for TextBuilderConfig {
    fn default() -> (r: Self)
        ensures
            r.line_break() == seq!['\n'],
            r.indent_texts() == Seq::<Seq<char>>::empty(),
    {
        TextBuilderConfig::new()
    }
}

} // verus!
