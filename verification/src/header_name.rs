//! The codec of header names, which are the keys of a header map.

use vstd::prelude::*;
use vstd::string::StringSliceAdditionalSpecFns;
use crate::error::{DecodeError, DecodeFailure};
use crate::http_specs::header_name_bytes;

verus! {

/// Whether a byte may stand in a header name: a letter, a digit, or one of
/// `! # $ % & ' * + - . ^ _ ` | ~`.
pub open spec fn is_name_byte(byte: u8) -> bool {
    ||| byte == 0x21
    ||| 0x23 <= byte <= 0x27
    ||| byte == 0x2a
    ||| byte == 0x2b
    ||| byte == 0x2d
    ||| byte == 0x2e
    ||| 0x30 <= byte <= 0x39
    ||| 0x41 <= byte <= 0x5a
    ||| 0x5e <= byte <= 0x7a
    ||| byte == 0x7c
    ||| byte == 0x7e
}

/// The byte with an upper-case ASCII letter turned to lower case.
pub open spec fn lower_byte(byte: u8) -> u8 {
    if 0x41 <= byte <= 0x5a {
        (byte + 0x20) as u8
    } else {
        byte
    }
}

/// The header name that a key stands for: the key in lower case, if it has
/// 1 to 65535 bytes and each of them may stand in a header name.
pub open spec fn parse_name(key: Seq<u8>) -> Option<Seq<u8>> {
    if 1 <= key.len() <= 65535 && (forall|i: int|
        0 <= i < key.len() ==> is_name_byte(#[trigger] key[i])) {
        Some(Seq::new(key.len(), |i: int| lower_byte(key[i])))
    } else {
        None
    }
}

/// Whether the bytes are a header name as parsing hands it out: parsing
/// them gives them back unchanged.
pub open spec fn is_canonical_name(name: Seq<u8>) -> bool {
    parse_name(name) == Some(name)
}

/// The key that a header name is encoded as: its text.
pub fn serialize(name: &http::HeaderName) -> (key: &str)
    ensures
        key.spec_bytes() == header_name_bytes(*name),
{
    name.as_str()
}

/// Decodes a key into a header name.
///
/// Fails with `InvalidKey`, which carries the key, exactly when the key is
/// no header name.
pub fn deserialize(key: &str) -> (name: Result<http::HeaderName, DecodeError>)
    ensures
        match name {
            Ok(parsed) => parse_name(key.spec_bytes()) == Some(header_name_bytes(parsed)),
            Err(e) => parse_name(key.spec_bytes()) is None && e@ == DecodeFailure::InvalidKey(
                key.spec_bytes(),
            ),
        },
{
    match http::HeaderName::from_bytes(key.as_bytes()) {
        Ok(parsed) => Ok(parsed),
        Err(_) => Err(DecodeError::InvalidKey(key.to_owned())),
    }
}

/// A parsed name is canonical: parsing it again changes nothing.
pub proof fn parsed_name_is_canonical(key: Seq<u8>)
    requires
        parse_name(key) is Some,
    ensures
        is_canonical_name(parse_name(key)->Some_0),
{
    let name = parse_name(key)->Some_0;
    assert(Seq::new(name.len(), |i: int| lower_byte(name[i])) =~= name);
}

} // verus!
