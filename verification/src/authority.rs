//! The codec of the authority of a URI, which is encoded as its text.

use vstd::prelude::*;
use vstd::string::StringSliceAdditionalSpecFns;
use crate::error::{DecodeError, DecodeFailure};
use crate::http_specs::{authority_from_str, authority_text, invalid_uri_reason, parse_authority};

verus! {

/// Encodes an authority as its text.
pub fn serialize(val: &http::uri::Authority) -> (text: &str)
    ensures
        text.spec_bytes() == authority_text(*val),
{
    val.as_str()
}

/// Decodes an authority from its text.
///
/// Fails with `InvalidUri`, which carries the reason, exactly when the text
/// is no authority.
pub fn deserialize(text: &str) -> (parsed: Result<http::uri::Authority, DecodeError>)
    ensures
        match parsed {
            Ok(value) => parse_authority(text.spec_bytes()) == Some(authority_text(value)),
            Err(e) => parse_authority(text.spec_bytes()) is None && e@ == DecodeFailure::InvalidUri,
        },
{
    match authority_from_str(text) {
        Ok(value) => Ok(value),
        Err(e) => Err(DecodeError::InvalidUri(invalid_uri_reason(&e))),
    }
}

} // verus!
