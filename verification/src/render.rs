use crate::errors::TextError;
use core::fmt::Write;
use vstd::prelude::*;
use vstd::string::StringSliceAdditionalSpecFns;
use vstd::utf8::{decode_utf8, encode_utf8_decode_utf8, valid_utf8};

verus! {

/// `core::fmt::Arguments`: a format string with its arguments, ready to be written.
#[verifier::external_type_specification]
#[verifier::external_body]
pub struct ExArguments<'a>(core::fmt::Arguments<'a>);

/// `Display::fmt` of `value`, written into a new string. The text is whatever the
/// value's own `fmt` writes, and `fmt` may fail: nothing is claimed of either.
#[verifier::external_body]
pub(crate) fn display_text<D: core::fmt::Display + ?Sized>(value: &D) -> (r: Result<
    String,
    core::fmt::Error,
>) {
    let mut text = String::new();
    match write!(text, "{}", value) {
        Ok(()) => Ok(text),
        Err(err) => Err(err),
    }
}

/// `Debug::fmt` of `value`, written into a new string. The text is whatever the value's
/// own `fmt` writes, and `fmt` may fail: nothing is claimed of either.
#[verifier::external_body]
pub(crate) fn debug_text<D: core::fmt::Debug + ?Sized>(value: &D) -> (r: Result<
    String,
    core::fmt::Error,
>) {
    let mut text = String::new();
    match write!(text, "{:?}", value) {
        Ok(()) => Ok(text),
        Err(err) => Err(err),
    }
}

/// `Write::write_fmt` of a new string: `args` written out. The text depends on the
/// `fmt` of each argument, and each may fail: nothing is claimed of either.
#[verifier::external_body]
pub(crate) fn arguments_text(args: core::fmt::Arguments<'_>) -> (r: Result<
    String,
    core::fmt::Error,
>) {
    let mut text = String::new();
    match text.write_fmt(args) {
        Ok(()) => Ok(text),
        Err(err) => Err(err),
    }
}

/// `core::str::from_utf8`: accepts exactly the valid UTF-8, and then returns the same
/// bytes, seen as a string.
#[verifier::external_body]
pub(crate) fn str_from_utf8(bytes: &[u8]) -> (r: Result<&str, core::str::Utf8Error>)
    ensures
        r is Ok <==> valid_utf8(bytes@),
        r matches Ok(text) ==> text.spec_bytes() == bytes@,
{
    core::str::from_utf8(bytes)
}

/// Reads `bytes` as UTF-8: the text they encode, or `TextError::Utf8Error` where they
/// encode none.
pub fn decode(bytes: &[u8]) -> (r: Result<&str, TextError>)
    ensures
        valid_utf8(bytes@) ==> (r matches Ok(text) && text@ == decode_utf8(bytes@)),
        !valid_utf8(bytes@) ==> (r matches Err(e) && e is Utf8Error),
{
    match str_from_utf8(bytes) {
        Ok(text) => {
            proof {
                encode_utf8_decode_utf8(text@);
            }
            Ok(text)
        },
        Err(err) => Err(TextError::Utf8Error(err)),
    }
}

/// Hands on the text that `fmt` wrote, or its failure as `TextError::Formatting`.
pub fn formatted(outcome: Result<String, core::fmt::Error>) -> (r: Result<String, TextError>)
    ensures
        r == match outcome {
            Ok(text) => Ok::<String, TextError>(text),
            Err(err) => Err::<String, TextError>(TextError::Formatting(err)),
        },
{
    match outcome {
        Ok(text) => Ok(text),
        Err(err) => Err(TextError::Formatting(err)),
    }
}

} // verus!
