//! Errors of the codecs.

use vstd::prelude::*;

verus! {

/// Why a value could not be encoded.
#[derive(Clone, Copy, Debug, PartialEq, Eq, Structural)]
pub enum EncodeError {
    /// A key of the map has no value at all.
    EmptyValueGroup,
    /// A header value holds bytes that have no textual form, and the target
    /// format is human readable.
    ValueNotText,
}

/// Why a payload could not be decoded.
#[derive(Clone, Debug, PartialEq, Eq)]
pub enum DecodeError {
    /// The key is no header name. Carries the key as it stood in the payload.
    InvalidKey(String),
    /// A value did not pass the checks of its type.
    InvalidValue,
    /// A bare value stood where the format calls for a sequence.
    UnexpectedShape,
    /// The header map refused to grow further.
    MaxSizeReached,
    /// The number is no status code.
    InvalidStatusCode,
    /// The text names no version of the protocol. Carries the text.
    InvalidVersion(String),
    /// The text is no URI, or no part of one. Carries the reason in words.
    InvalidUri(String),
    /// The text is no method.
    InvalidMethod,
}

/// What a [`DecodeError`] says, with the text that it carries as UTF-8
/// bytes.
pub enum DecodeFailure {
    InvalidKey(Seq<u8>),
    InvalidValue,
    UnexpectedShape,
    MaxSizeReached,
    InvalidStatusCode,
    InvalidVersion(Seq<u8>),
    InvalidUri,
    InvalidMethod,
}

impl View for DecodeError {
    type V = DecodeFailure;

    open spec fn view(&self) -> DecodeFailure {
        match *self {
            DecodeError::InvalidKey(key) => DecodeFailure::InvalidKey(
                vstd::utf8::encode_utf8(key@),
            ),
            DecodeError::InvalidValue => DecodeFailure::InvalidValue,
            DecodeError::UnexpectedShape => DecodeFailure::UnexpectedShape,
            DecodeError::MaxSizeReached => DecodeFailure::MaxSizeReached,
            DecodeError::InvalidStatusCode => DecodeFailure::InvalidStatusCode,
            DecodeError::InvalidVersion(text) => DecodeFailure::InvalidVersion(
                vstd::utf8::encode_utf8(text@),
            ),
            DecodeError::InvalidUri(_) => DecodeFailure::InvalidUri,
            DecodeError::InvalidMethod => DecodeFailure::InvalidMethod,
        }
    }
}

impl EncodeError {
    /// The error in words.
    pub open spec fn message_text(self) -> Seq<char> {
        match self {
            EncodeError::EmptyValueGroup => "header has no values"@,
            EncodeError::ValueNotText => "failed to convert header to a str"@,
        }
    }

    /// The error in words.
    pub fn message(&self) -> (text: String)
        ensures
            text@ == self.message_text(),
    {
        match self {
            EncodeError::EmptyValueGroup => "header has no values".to_owned(),
            EncodeError::ValueNotText => "failed to convert header to a str".to_owned(),
        }
    }
}

impl DecodeError {
    /// The error in words. An invalid URI gives the reason that it carries.
    pub open spec fn message_text(self) -> Seq<char> {
        match self {
            DecodeError::InvalidKey(_) => "invalid HTTP header name"@,
            DecodeError::InvalidValue => "failed to parse header value"@,
            DecodeError::UnexpectedShape => "expected a sequence of header values"@,
            DecodeError::MaxSizeReached => "max size reached"@,
            DecodeError::InvalidStatusCode => "invalid status code"@,
            DecodeError::InvalidVersion(_) => "expected a version string"@,
            DecodeError::InvalidUri(reason) => reason@,
            DecodeError::InvalidMethod => "invalid HTTP method"@,
        }
    }

    /// The error in words.
    pub fn message(&self) -> (text: String)
        ensures
            text@ == self.message_text(),
    {
        match self {
            DecodeError::InvalidKey(_) => "invalid HTTP header name".to_owned(),
            DecodeError::InvalidValue => "failed to parse header value".to_owned(),
            DecodeError::UnexpectedShape => "expected a sequence of header values".to_owned(),
            DecodeError::MaxSizeReached => "max size reached".to_owned(),
            DecodeError::InvalidStatusCode => "invalid status code".to_owned(),
            DecodeError::InvalidVersion(_) => "expected a version string".to_owned(),
            DecodeError::InvalidUri(reason) => reason.clone(),
            DecodeError::InvalidMethod => "invalid HTTP method".to_owned(),
        }
    }
}

} // verus!
