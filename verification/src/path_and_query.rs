//! The codec of the path and query of a URI, which is encoded as its text.

use vstd::prelude::*;
use vstd::string::StringSliceAdditionalSpecFns;
use crate::error::{DecodeError, DecodeFailure};
use crate::http_specs::{
    invalid_uri_reason, parse_path_and_query, path_and_query_from_str, path_and_query_text,
};

verus! {

/// Encodes a path and query as its text.
pub fn serialize(val: &http::uri::PathAndQuery) -> (text: &str)
    ensures
        text.spec_bytes() == path_and_query_text(*val),
{
    val.as_str()
}

/// Decodes a path and query from its text.
///
/// Fails with `InvalidUri`, which carries the reason, exactly when the text
/// is no path and query.
pub fn deserialize(text: &str) -> (parsed: Result<http::uri::PathAndQuery, DecodeError>)
    ensures
        match parsed {
            Ok(value) => parse_path_and_query(text.spec_bytes()) == Some(
                path_and_query_text(value),
            ),
            Err(e) => parse_path_and_query(text.spec_bytes()) is None && e@
                == DecodeFailure::InvalidUri,
        },
{
    match path_and_query_from_str(text) {
        Ok(value) => Ok(value),
        Err(e) => Err(DecodeError::InvalidUri(invalid_uri_reason(&e))),
    }
}

} // verus!
