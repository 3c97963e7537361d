use vstd::prelude::*;

verus! {

/// The fragments of `parts` one after another, the first one first.
pub open spec fn joined(parts: Seq<Seq<char>>) -> Seq<char>
    decreases parts.len(),
{
    if parts.len() == 0 {
        Seq::empty()
    } else {
        joined(parts.drop_last()) + parts.last()
    }
}

/// What a builder is, seen from outside: the text its sink has taken so far, the line
/// break it emits, its indents, outermost first, and whether its sink accepts every
/// write.
pub struct TextModel {
    pub text: Seq<char>,
    pub line_break: Seq<char>,
    pub indents: Seq<Seq<char>>,
    pub reliable: bool,
}

impl TextModel {
    /// A new builder over an empty sink: a line break of one `\n`, and no indent.
    pub open spec fn fresh(reliable: bool) -> TextModel {
        TextModel::over(Seq::empty(), reliable)
    }

    /// A new builder over a sink that already holds `text`.
    pub open spec fn over(text: Seq<char>, reliable: bool) -> TextModel {
        TextModel { text, line_break: seq!['\n'], indents: Seq::empty(), reliable }
    }

    /// `fragment` goes to the end of the sink; nothing else changes.
    pub open spec fn append(self, fragment: Seq<char>) -> TextModel {
        TextModel { text: self.text + fragment, ..self }
    }

    /// All indents in a row, outermost first.
    pub open spec fn indentation(self) -> Seq<char> {
        joined(self.indents)
    }

    /// What one `newline` puts into the sink: the line break, then every indent.
    pub open spec fn line_start(self) -> Seq<char> {
        self.line_break + self.indentation()
    }

    /// The line break goes to the sink, then every indent, outermost first.
    pub open spec fn newline(self) -> TextModel {
        self.append(self.line_start())
    }

    /// From now on `line_break` is emitted; the sink is left as it is.
    pub open spec fn with_line_break(self, line_break: Seq<char>) -> TextModel {
        TextModel { line_break, ..self }
    }

    /// `indent` becomes the innermost indent.
    pub open spec fn push_indent(self, indent: Seq<char>) -> TextModel {
        TextModel { indents: self.indents.push(indent), ..self }
    }

    /// The innermost indent leaves; without indents nothing changes.
    pub open spec fn pop_indent(self) -> TextModel {
        if self.indents.len() == 0 {
            self
        } else {
            TextModel { indents: self.indents.drop_last(), ..self }
        }
    }
}

/// Joining one more fragment appends it.
pub proof fn lemma_joined_push(parts: Seq<Seq<char>>, part: Seq<char>)
    ensures
        joined(parts.push(part)) == joined(parts) + part,
{
    assert(parts.push(part).drop_last() =~= parts);
}

} // verus!
