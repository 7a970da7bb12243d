//! The codec of methods, which are encoded as their text.

use vstd::prelude::*;
use vstd::string::StringSliceAdditionalSpecFns;
use crate::error::{DecodeError, DecodeFailure};
use crate::header_name::is_name_byte;
use crate::http_specs::method_bytes;

verus! {

/// Whether the bytes are a method: one or more token characters, which are
/// the characters of a header name, in either case.
pub open spec fn is_method(bytes: Seq<u8>) -> bool {
    bytes.len() >= 1 && forall|i: int| 0 <= i < bytes.len() ==> is_name_byte(#[trigger] bytes[i])
}

/// Encodes a method as its text.
pub fn serialize(val: &http::Method) -> (text: &str)
    ensures
        text.spec_bytes() == method_bytes(*val),
{
    val.as_str()
}

/// Decodes a method from its text, which is kept as it is.
///
/// Fails with `InvalidMethod` exactly when the text is no method.
pub fn deserialize(text: &str) -> (method: Result<http::Method, DecodeError>)
    ensures
        match method {
            Ok(parsed) => is_method(text.spec_bytes()) && method_bytes(parsed) == text.spec_bytes(),
            Err(e) => !is_method(text.spec_bytes()) && e@ == DecodeFailure::InvalidMethod,
        },
{
    match http::Method::from_bytes(text.as_bytes()) {
        Ok(parsed) => Ok(parsed),
        Err(_) => Err(DecodeError::InvalidMethod),
    }
}

} // verus!
