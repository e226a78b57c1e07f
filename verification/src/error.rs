//! Decode failures. All of them are local, recoverable parse errors that are
//! handed back to the immediate caller as values.

use vstd::prelude::*;
use crate::json::JsonValue;

verus! {

/// Why a decode failed.
#[derive(Debug, PartialEq, Eq)]
pub enum DecodeError {
    /// The field was required to be present but the JSON value was absent.
    MissingInput,
    /// A value was present but was not a JSON value of the expected shape.
    InvalidShape,
    /// A value was present but had no shape the decoder recognizes — for the
    /// two-variant value, an object lacking both the `ok` and the `err` key.
    /// The offending value is kept for diagnostics.
    UnrecognizedShape(JsonValue),
    /// The chosen variant's own decoder failed; its message is forwarded
    /// verbatim, with no extra variant tag.
    PayloadDecodeFailure(String),
}

/// The mathematical shape of a [`DecodeError`]: the forwarded message is a
/// sequence of characters rather than an owned string.
pub enum SpecDecodeError {
    MissingInput,
    InvalidShape,
    UnrecognizedShape(JsonValue),
    PayloadDecodeFailure(Seq<char>),
}

impl View for DecodeError {
    type V = SpecDecodeError;

    open spec fn view(&self) -> SpecDecodeError {
        match self {
            DecodeError::MissingInput => SpecDecodeError::MissingInput,
            DecodeError::InvalidShape => SpecDecodeError::InvalidShape,
            DecodeError::UnrecognizedShape(v) => SpecDecodeError::UnrecognizedShape(*v),
            DecodeError::PayloadDecodeFailure(m) => SpecDecodeError::PayloadDecodeFailure(m@),
        }
    }
}

/// The text that each failure reports.
pub open spec fn message_of(e: SpecDecodeError) -> Seq<char> {
    match e {
        SpecDecodeError::MissingInput => "expected input"@,
        SpecDecodeError::InvalidShape => "expected an object"@,
        SpecDecodeError::UnrecognizedShape(_) => "unexpected value shape"@,
        SpecDecodeError::PayloadDecodeFailure(m) => m,
    }
}

impl DecodeError {
    /// The error's message, as a caller embedding this value in a larger
    /// structure would report it.
    pub fn into_message(self) -> (r: String)
        ensures
            r@ == message_of(self@),
    {
        match self {
            DecodeError::MissingInput => "expected input".to_owned(),
            DecodeError::InvalidShape => "expected an object".to_owned(),
            DecodeError::UnrecognizedShape(_) => "unexpected value shape".to_owned(),
            DecodeError::PayloadDecodeFailure(m) => m,
        }
    }
}

/// A decode result with its error seen through the error's view, so that
/// contracts can state the whole result at the spec level.
pub open spec fn result_view<T>(r: Result<T, DecodeError>) -> Result<T, SpecDecodeError> {
    match r {
        Ok(t) => Ok(t),
        Err(e) => Err(e@),
    }
}

} // verus!
