//! The codec of the scheme of a URI, which is encoded as its text.

use vstd::prelude::*;
use vstd::string::StringSliceAdditionalSpecFns;
use crate::error::{DecodeError, DecodeFailure};
use crate::http_specs::{invalid_uri_reason, scheme_from_str, scheme_text};

verus! {

/// Whether a byte may stand in a scheme: a letter, a digit, or one of
/// `+ - . ~`.
pub open spec fn is_scheme_byte(byte: u8) -> bool {
    ||| byte == 0x2b
    ||| byte == 0x2d
    ||| byte == 0x2e
    ||| 0x30 <= byte <= 0x39
    ||| 0x41 <= byte <= 0x5a
    ||| 0x61 <= byte <= 0x7a
    ||| byte == 0x7e
}

/// Whether the bytes are a scheme: at most 64 bytes, each of which may
/// stand in a scheme.
pub open spec fn is_scheme(bytes: Seq<u8>) -> bool {
    bytes.len() <= 64 && forall|i: int| 0 <= i < bytes.len() ==> is_scheme_byte(#[trigger] bytes[i])
}

/// Encodes a scheme as its text.
pub fn serialize(val: &http::uri::Scheme) -> (text: &str)
    ensures
        text.spec_bytes() == scheme_text(*val),
{
    val.as_str()
}

/// Decodes a scheme from its text, which is kept as it is.
///
/// Fails with `InvalidUri`, which carries the reason, exactly when the text
/// is no scheme.
pub fn deserialize(text: &str) -> (parsed: Result<http::uri::Scheme, DecodeError>)
    ensures
        match parsed {
            Ok(value) => is_scheme(text.spec_bytes()) && scheme_text(value) == text.spec_bytes(),
            Err(e) => !is_scheme(text.spec_bytes()) && e@ == DecodeFailure::InvalidUri,
        },
{
    match scheme_from_str(text) {
        Ok(value) => Ok(value),
        Err(e) => Err(DecodeError::InvalidUri(invalid_uri_reason(&e))),
    }
}

} // verus!
