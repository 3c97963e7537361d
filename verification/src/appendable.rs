use crate::errors::TextError;
use crate::sink::Sink;
use vstd::prelude::*;

verus! {

/// A value that can write itself, as text, to a sink.
pub trait Appendable {
    /// The text that the value writes: the same on every call, whatever the sink.
    spec fn rendered(&self) -> Seq<char>;

    /// Writes the whole text of the value behind what `sink` holds. Only the sink can
    /// make this fail.
    fn write_to<S: Sink>(&self, sink: &mut S) -> (r: Result<(), TextError>)
        ensures
            final(sink).reliable() == old(sink).reliable(),
            old(sink).reliable() ==> r is Ok,
            r is Ok ==> final(sink).written() == old(sink).written() + self.rendered(),
            r matches Err(e) ==> e is Formatting,
    ;

    /// The text of the value as a string of its own.
    fn to_text(&self) -> (r: String)
        ensures
            r@ == self.rendered(),
    {
        let mut text = String::new();
        let _ = self.write_to(&mut text);
        text
    }
}

impl Appendable for char {
    open spec fn rendered(&self) -> Seq<char> {
        seq![*self]
    }

    fn write_to<S: Sink>(&self, sink: &mut S) -> (r: Result<(), TextError>) {
        sink.put_char(*self)
    }
}

impl Appendable for &str {
    open spec fn rendered(&self) -> Seq<char> {
        self@
    }

    fn write_to<S: Sink>(&self, sink: &mut S) -> (r: Result<(), TextError>) {
        sink.put_str(self)
    }
}

impl Appendable for String {
    open spec fn rendered(&self) -> Seq<char> {
        self@
    }

    fn write_to<S: Sink>(&self, sink: &mut S) -> (r: Result<(), TextError>) {
        sink.put_str(self.as_str())
    }
}

/// The value that writes nothing: a delimiter or an indent for where none is wanted.
#[derive(Default)]
pub struct NotAppendable;

impl Appendable for NotAppendable {
    open spec fn rendered(&self) -> Seq<char> {
        Seq::empty()
    }

    fn write_to<S: Sink>(&self, sink: &mut S) -> (r: Result<(), TextError>) {
        Ok(())
    }
}

} // verus!
