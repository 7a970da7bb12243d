//! The codec of status codes, which are encoded as their number.

use vstd::prelude::*;
use crate::error::{DecodeError, DecodeFailure};
use crate::http_specs::status_code_number;

verus! {

/// A whole number as a format hands it over: signed or unsigned, of up to
/// 64 bits.
#[derive(Clone, Copy, Debug, PartialEq, Eq)]
pub enum Integer {
    Signed(i64),
    Unsigned(u64),
}

impl View for Integer {
    type V = int;

    open spec fn view(&self) -> int {
        match *self {
            Integer::Signed(number) => number as int,
            Integer::Unsigned(number) => number as int,
        }
    }
}

/// The lowest 16 bits of a number in two's complement.
pub open spec fn low_16_bits(number: int) -> u16 {
    (number % 0x1_0000) as u16
}

/// The number of the status code that a number is decoded to: its lowest
/// 16 bits, if they make a number from 100 to 999.
pub open spec fn parse_status(number: int) -> Option<u16> {
    if 100 <= low_16_bits(number) <= 999 {
        Some(low_16_bits(number))
    } else {
        None
    }
}

/// The lowest 16 bits of the number.
pub fn truncate(number: Integer) -> (low: u16)
    ensures
        low == low_16_bits(number@),
{
    match number {
        Integer::Unsigned(number) => {
            let low = #[verifier::truncate] (number as u16);
            assert(low == number % 0x1_0000) by (bit_vector)
                requires
                    low == number as u16,
            ;
            low
        },
        Integer::Signed(number) => {
            let low = #[verifier::truncate] (number as u16);
            let ghost wide = number as u64;
            assert(low == wide % 0x1_0000) by (bit_vector)
                requires
                    low == number as u16,
                    wide == number as u64,
            ;
            assert(number >= 0 ==> wide == number) by (bit_vector)
                requires
                    wide == number as u64,
            ;
            assert(number < 0 ==> wide - 0x8000_0000_0000_0000 == number + 0x8000_0000_0000_0000)
                by (bit_vector)
                requires
                    wide == number as u64,
            ;
            low
        },
    }
}

/// Encodes a status code as its number.
pub fn serialize(status: &http::StatusCode) -> (number: u16)
    ensures
        number == status_code_number(*status),
        parse_status(number as int) == Some(number),
{
    status.as_u16()
}

/// Decodes a status code from a number.
///
/// Only the lowest 16 bits of the number count. Fails with
/// `InvalidStatusCode` exactly when they make a number below 100 or above
/// 999.
pub fn deserialize(number: Integer) -> (status: Result<http::StatusCode, DecodeError>)
    ensures
        match status {
            Ok(code) => parse_status(number@) == Some(status_code_number(code)),
            Err(e) => parse_status(number@) is None && e@ == DecodeFailure::InvalidStatusCode,
        },
{
    match http::StatusCode::from_u16(truncate(number)) {
        Ok(code) => Ok(code),
        Err(_) => Err(DecodeError::InvalidStatusCode),
    }
}

} // verus!
