//! The codec of URIs, which are encoded as their text.

use vstd::prelude::*;
use vstd::string::StringSliceAdditionalSpecFns;
use crate::error::{DecodeError, DecodeFailure};
use crate::http_specs::{invalid_uri_reason, parse_uri, uri_from_str, uri_text, uri_to_string};

verus! {

/// Encodes a URI as the text that it shows as.
pub fn serialize(val: &http::Uri) -> (text: String)
    ensures
        vstd::utf8::encode_utf8(text@) == uri_text(*val),
{
    uri_to_string(val)
}

/// Decodes a URI from its text.
///
/// Fails with `InvalidUri`, which carries the reason, exactly when the text
/// is no URI.
pub fn deserialize(text: &str) -> (uri: Result<http::Uri, DecodeError>)
    ensures
        match uri {
            Ok(parsed) => parse_uri(text.spec_bytes()) == Some(uri_text(parsed)),
            Err(e) => parse_uri(text.spec_bytes()) is None && e@ == DecodeFailure::InvalidUri,
        },
{
    match uri_from_str(text) {
        Ok(parsed) => Ok(parsed),
        Err(e) => Err(DecodeError::InvalidUri(invalid_uri_reason(&e))),
    }
}

} // verus!
