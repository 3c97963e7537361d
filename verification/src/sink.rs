use crate::errors::TextError;
use core::fmt::Write;
use vstd::prelude::*;
use vstd::string::StringExecFns;

verus! {

/// `core::fmt::Formatter`: the streaming sink that `Display` and `Debug` hand to `fmt`.
#[verifier::external_type_specification]
#[verifier::external_body]
pub struct ExFormatter<'a>(core::fmt::Formatter<'a>);

/// Everything that has been written through a formatter and was accepted.
pub uninterp spec fn formatter_written(formatter: &core::fmt::Formatter) -> Seq<char>;

/// `Formatter::write_str`: when it returns `Ok`, the whole of `s` was written behind
/// what the formatter held. Of a failed write nothing is known.
#[verifier::external_body]
fn formatter_write_str(formatter: &mut core::fmt::Formatter<'_>, s: &str) -> (r: Result<
    (),
    core::fmt::Error,
>)
    ensures
        r is Ok ==> formatter_written(final(formatter)) == formatter_written(old(formatter)) + s@,
{
    formatter.write_str(s)
}

/// `Write::write_char` of a formatter: when it returns `Ok`, `c` was written behind what
/// the formatter held. Of a failed write nothing is known.
#[verifier::external_body]
fn formatter_write_char(formatter: &mut core::fmt::Formatter<'_>, c: char) -> (r: Result<
    (),
    core::fmt::Error,
>)
    ensures
        r is Ok ==> formatter_written(final(formatter)) == formatter_written(
            old(formatter),
        ).push(c),
{
    formatter.write_char(c)
}

/// `String::push` puts one character at the end of the string.
pub assume_specification[ String::push ](s: &mut String, c: char)
    ensures
        final(s)@ == old(s)@.push(c),
;

/// A destination that text can only be added to.
pub trait Sink {
    /// Everything the sink has accepted so far, in the order in which it came.
    spec fn written(&self) -> Seq<char>;

    /// Whether the sink accepts every write.
    spec fn reliable(&self) -> bool;

    /// Writes `s` behind what the sink holds. A sink that is not reliable may refuse;
    /// what it then holds is not known.
    fn put_str(&mut self, s: &str) -> (r: Result<(), TextError>)
        ensures
            final(self).reliable() == old(self).reliable(),
            old(self).reliable() ==> r is Ok,
            r is Ok ==> final(self).written() == old(self).written() + s@,
            r matches Err(e) ==> e is Formatting,
    ;

    /// Writes `c` behind what the sink holds. A sink that is not reliable may refuse;
    /// what it then holds is not known.
    fn put_char(&mut self, c: char) -> (r: Result<(), TextError>)
        ensures
            final(self).reliable() == old(self).reliable(),
            old(self).reliable() ==> r is Ok,
            r is Ok ==> final(self).written() == old(self).written().push(c),
            r matches Err(e) ==> e is Formatting,
    ;
}

/// A string takes whatever is written: it is the growable buffer among the sinks.
impl Sink for String {
    open spec fn written(&self) -> Seq<char> {
        self@
    }

    open spec fn reliable(&self) -> bool {
        true
    }

    fn put_str(&mut self, s: &str) -> (r: Result<(), TextError>) {
        self.append(s);
        Ok(())
    }

    fn put_char(&mut self, c: char) -> (r: Result<(), TextError>) {
        self.push(c);
        Ok(())
    }
}

/// What is written to a formatter goes on to whatever the formatter writes to, which may
/// refuse it.
impl<'a> Sink for core::fmt::Formatter<'a> {
    open spec fn written(&self) -> Seq<char> {
        formatter_written(self)
    }

    open spec fn reliable(&self) -> bool {
        false
    }

    fn put_str(&mut self, s: &str) -> (r: Result<(), TextError>) {
        after_write(formatter_write_str(self, s))
    }

    fn put_char(&mut self, c: char) -> (r: Result<(), TextError>) {
        after_write(formatter_write_char(self, c))
    }
}

/// What a write to a formatter means for a build: success stays success, and a refusal
/// becomes `TextError::Formatting` around the formatter's error.
pub fn after_write(outcome: Result<(), core::fmt::Error>) -> (r: Result<(), TextError>)
    ensures
        r == match outcome {
            Ok(()) => Ok::<(), TextError>(()),
            Err(err) => Err::<(), TextError>(TextError::Formatting(err)),
        },
{
    match outcome {
        Ok(()) => Ok(()),
        Err(err) => Err(TextError::Formatting(err)),
    }
}

} // verus!
