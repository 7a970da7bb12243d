//! The codec of header values.

use vstd::prelude::*;
use vstd::slice::slice_to_vec;
use crate::error::{DecodeError, DecodeFailure, EncodeError};
use crate::http_specs::header_value_bytes;
use crate::wire::{Scalar, ScalarModel};

verus! {

/// Whether a byte may stand in a header value: a tab, or at least 32 and not
/// 127.
pub open spec fn is_value_byte(byte: u8) -> bool {
    (byte >= 32 && byte != 127) || byte == 9
}

/// Whether a byte of a header value shows as text: a tab, or a visible ASCII
/// character.
pub open spec fn is_text_byte(byte: u8) -> bool {
    (32 <= byte < 127) || byte == 9
}

/// Whether the bytes are a header value.
pub open spec fn is_value(bytes: Seq<u8>) -> bool {
    forall|i: int| 0 <= i < bytes.len() ==> is_value_byte(#[trigger] bytes[i])
}

/// Whether the bytes are a header value that shows as text.
pub open spec fn is_text(bytes: Seq<u8>) -> bool {
    forall|i: int| 0 <= i < bytes.len() ==> is_text_byte(#[trigger] bytes[i])
}

/// The encoded form of a header value: its text where the format is human
/// readable, which asks that every byte shows as text; its bytes otherwise.
pub open spec fn format_value(bytes: Seq<u8>, human_readable: bool) -> Result<
    ScalarModel,
    EncodeError,
> {
    if !human_readable {
        Ok(ScalarModel::Bytes(bytes))
    } else if is_text(bytes) {
        Ok(ScalarModel::Text(bytes))
    } else {
        Err(EncodeError::ValueNotText)
    }
}

/// The header value that an encoded value stands for: its bytes, if they
/// are a header value. Text and raw bytes are read alike.
pub open spec fn parse_value(scalar: ScalarModel) -> Option<Seq<u8>> {
    if is_value(scalar.bytes()) {
        Some(scalar.bytes())
    } else {
        None
    }
}

/// Encodes a header value: as text for a human-readable format, as bytes
/// for any other.
pub fn serialize(val: &http::HeaderValue, is_human_readable: bool) -> (scalar: Result<
    Scalar,
    EncodeError,
>)
    ensures
        match scalar {
            Ok(encoded) => format_value(header_value_bytes(*val), is_human_readable) == Ok::<
                ScalarModel,
                EncodeError,
            >(encoded@),
            Err(e) => format_value(header_value_bytes(*val), is_human_readable) == Err::<
                ScalarModel,
                EncodeError,
            >(e),
        },
{
    if is_human_readable {
        match val.to_str() {
            Ok(text) => Ok(Scalar::Text(text.to_owned())),
            Err(_) => Err(EncodeError::ValueNotText),
        }
    } else {
        Ok(Scalar::Bytes(slice_to_vec(val.as_bytes())))
    }
}

/// Decodes a header value from its text or from its bytes.
///
/// Fails with `InvalidValue` exactly when some byte may not stand in a
/// header value.
pub fn deserialize(scalar: &Scalar) -> (value: Result<http::HeaderValue, DecodeError>)
    ensures
        match value {
            Ok(parsed) => parse_value(scalar@) == Some(header_value_bytes(parsed)),
            Err(e) => parse_value(scalar@) is None && e@ == DecodeFailure::InvalidValue,
        },
{
    let parsed = match scalar {
        Scalar::Text(text) => http::HeaderValue::from_bytes(text.as_str().as_bytes()),
        Scalar::Bytes(bytes) => http::HeaderValue::from_bytes(bytes.as_slice()),
    };
    match parsed {
        Ok(value) => Ok(value),
        Err(_) => Err(DecodeError::InvalidValue),
    }
}

/// Decoding what a header value was encoded as gives the value back.
pub proof fn value_round_trip(bytes: Seq<u8>, human_readable: bool)
    requires
        is_value(bytes),
        format_value(bytes, human_readable) is Ok,
    ensures
        parse_value(format_value(bytes, human_readable)->Ok_0) == Some(bytes),
{
}

} // verus!
