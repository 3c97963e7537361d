use vstd::prelude::*;
use vstd::std_specs::convert::FromSpecImpl;
use vstd::string::{to_string_from_display_ensures, StringExecFns};

verus! {

/// `core::fmt::Error`: the unit value with which formatting reports a failure.
#[verifier::external_type_specification]
pub struct ExFmtError(core::fmt::Error);

/// `core::str::Utf8Error`: why a run of bytes is no UTF-8. Nothing is read from it here.
#[verifier::external_type_specification]
#[verifier::external_body]
pub struct ExUtf8Error(core::str::Utf8Error);

/// Why a build stopped.
#[derive(Debug)]
pub enum TextError {
    /// A position that lies outside the text.
    IndexOutOfRange(usize),
    /// The sink refused a write, or a value failed to format itself.
    Formatting(core::fmt::Error),
    /// Bytes that were to be read as UTF-8 are not valid UTF-8.
    Utf8Error(core::str::Utf8Error),
}

impl TextError {
    /// The error in words.
    pub fn message(&self) -> (r: String)
        ensures
            match *self {
                TextError::IndexOutOfRange(index) => exists|digits: String|
                    #[trigger] to_string_from_display_ensures::<usize>(&index, digits) && r@
                        == "index `"@ + digits@ + "` is out of range"@,
                TextError::Formatting(_) => r@ == "formatting failed"@,
                TextError::Utf8Error(_) => r@ == "Utf8 Encoding Error"@,
            },
    {
        match self {
            TextError::IndexOutOfRange(index) => {
                let digits = index.to_string();
                let mut text = String::from_str("index `");
                text.append(digits.as_str());
                text.append("` is out of range");
                text
            },
            TextError::Formatting(_) => String::from_str("formatting failed"),
            TextError::Utf8Error(_) => String::from_str("Utf8 Encoding Error"),
        }
    }

    /// What `core::fmt::Error` stands for this error: the one inside `Formatting`, and the
    /// same unit value for every other variant.
    pub open spec fn as_fmt_error(self) -> core::fmt::Error {
        match self {
            TextError::Formatting(err) => err,
            _ => core::fmt::Error,
        }
    }
}

impl From<core::fmt::Error> for TextError {
    fn from(err: core::fmt::Error) -> (r: Self) {
        TextError::Formatting(err)
    }
}

impl FromSpecImpl<core::fmt::Error> for TextError {
    open spec fn obeys_from_spec() -> bool {
        true
    }

    open spec fn from_spec(err: core::fmt::Error) -> Self {
        TextError::Formatting(err)
    }
}

impl From<core::str::Utf8Error> for TextError {
    fn from(err: core::str::Utf8Error) -> (r: Self) {
        TextError::Utf8Error(err)
    }
}

impl FromSpecImpl<core::str::Utf8Error> for TextError {
    open spec fn obeys_from_spec() -> bool {
        true
    }

    open spec fn from_spec(err: core::str::Utf8Error) -> Self {
        TextError::Utf8Error(err)
    }
}

impl From<TextError> for core::fmt::Error {
    fn from(text_error: TextError) -> (r: Self) {
        match text_error {
            TextError::Formatting(err) => err,
            _ => core::fmt::Error,
        }
    }
}

impl FromSpecImpl<TextError> for core::fmt::Error {
    open spec fn obeys_from_spec() -> bool {
        true
    }

    open spec fn from_spec(text_error: TextError) -> Self {
        text_error.as_fmt_error()
    }
}

} // verus!
