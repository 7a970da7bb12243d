//! The codec of protocol versions, which are encoded as text such as
//! `HTTP/1.1`.

use vstd::prelude::*;
use vstd::string::StringSliceAdditionalSpecFns;
use crate::error::{DecodeError, DecodeFailure};
use crate::compare::text_equal;

verus! {

/// A version of the protocol.
#[derive(Clone, Copy, Debug, PartialEq, Eq, Structural)]
pub enum Version {
    Http09,
    Http10,
    Http11,
    H2,
    H3,
}

/// The text that a version is encoded as.
pub open spec fn version_text(version: Version) -> Seq<char> {
    match version {
        Version::Http09 => "HTTP/0.9"@,
        Version::Http10 => "HTTP/1.0"@,
        Version::Http11 => "HTTP/1.1"@,
        Version::H2 => "HTTP/2.0"@,
        Version::H3 => "HTTP/3.0"@,
    }
}

/// The version that a text names, if it names one.
pub open spec fn parse_version(text: Seq<char>) -> Option<Version> {
    if text == "HTTP/0.9"@ {
        Some(Version::Http09)
    } else if text == "HTTP/1.0"@ {
        Some(Version::Http10)
    } else if text == "HTTP/1.1"@ {
        Some(Version::Http11)
    } else if text == "HTTP/2.0"@ {
        Some(Version::H2)
    } else if text == "HTTP/3.0"@ {
        Some(Version::H3)
    } else {
        None
    }
}

/// Encodes a version as its text.
pub fn serialize(val: &Version) -> (text: &'static str)
    ensures
        text@ == version_text(*val),
{
    match val {
        Version::Http09 => "HTTP/0.9",
        Version::Http10 => "HTTP/1.0",
        Version::Http11 => "HTTP/1.1",
        Version::H2 => "HTTP/2.0",
        Version::H3 => "HTTP/3.0",
    }
}

/// Decodes a version from its text.
///
/// Fails with `InvalidVersion`, which carries the text, exactly when the
/// text is none of the five that name a version.
pub fn deserialize(text: &str) -> (version: Result<Version, DecodeError>)
    ensures
        match version {
            Ok(named) => parse_version(text@) == Some(named),
            Err(e) => parse_version(text@) is None && e@ == DecodeFailure::InvalidVersion(
                text.spec_bytes(),
            ),
        },
{
    if text_equal(text, "HTTP/0.9") {
        Ok(Version::Http09)
    } else if text_equal(text, "HTTP/1.0") {
        Ok(Version::Http10)
    } else if text_equal(text, "HTTP/1.1") {
        Ok(Version::Http11)
    } else if text_equal(text, "HTTP/2.0") {
        Ok(Version::H2)
    } else if text_equal(text, "HTTP/3.0") {
        Ok(Version::H3)
    } else {
        Err(DecodeError::InvalidVersion(text.to_owned()))
    }
}

/// Decoding the text of a version gives the version back.
pub proof fn round_trip(version: Version)
    ensures
        parse_version(version_text(version)) == Some(version),
{
    reveal_strlit("HTTP/0.9");
    reveal_strlit("HTTP/1.0");
    reveal_strlit("HTTP/1.1");
    reveal_strlit("HTTP/2.0");
    reveal_strlit("HTTP/3.0");
    assert("HTTP/0.9"@[5] == '0' && "HTTP/1.0"@[5] == '1' && "HTTP/1.1"@[5] == '1' && "HTTP/2.0"@[5]
        == '2' && "HTTP/3.0"@[5] == '3');
    assert("HTTP/1.0"@[7] == '0' && "HTTP/1.1"@[7] == '1');
}

} // verus!
