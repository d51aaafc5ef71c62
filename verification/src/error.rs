//! Why a frame or a payload could not be decoded.

use vstd::prelude::*;

verus! {

/// What kept a text or a payload from being decoded.
#[derive(Debug, Clone, Copy, PartialEq, Eq, Structural)]
pub enum DecodeError {
    /// The text is not a JSON document.
    Malformed,
    /// The frame has no integer operation code.
    MissingOperation,
    /// A dispatch frame has no event name.
    MissingEventName,
    /// A field that the payload must have is absent or of another type.
    MissingField,
    /// An identifier is not the decimal spelling of a 64-bit unsigned integer.
    InvalidId,
}

impl DecodeError {
    /// A short description for a log line.
    pub fn describe(&self) -> (text: String)
        ensures
            text@ == match *self {
                DecodeError::Malformed => "frame is not JSON"@,
                DecodeError::MissingOperation => "frame has no operation code"@,
                DecodeError::MissingEventName => "dispatch frame has no event name"@,
                DecodeError::MissingField => "payload lacks a required field"@,
                DecodeError::InvalidId => "identifier is not a decimal integer"@,
            },
    {
        match self {
            DecodeError::Malformed => "frame is not JSON".to_owned(),
            DecodeError::MissingOperation => "frame has no operation code".to_owned(),
            DecodeError::MissingEventName => "dispatch frame has no event name".to_owned(),
            DecodeError::MissingField => "payload lacks a required field".to_owned(),
            DecodeError::InvalidId => "identifier is not a decimal integer".to_owned(),
        }
    }
}

} // verus!
