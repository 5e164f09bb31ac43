//! Field values read as integers.
use vstd::prelude::*;

use super::{FieldValue, TryFrom};
use crate::fields::ConversionError;
use crate::text::{parse_signed, parse_signed_chars, parse_unsigned, parse_unsigned_chars, str_chars};
use super::string::value_text;

verus! {

/// The value of a field read as an unsigned integer no larger than `max`.
pub open spec fn unsigned_value(v: Seq<u8>, max: nat) -> Result<nat, ConversionError> {
    match value_text(v) {
        None => Err(ConversionError::EncodingError),
        Some(t) => match parse_unsigned(t, max) {
            Some(n) => Ok(n),
            None => Err(ConversionError::IntParseErr),
        },
    }
}

/// The value of a field read as a signed integer in `min ..= max`.
pub open spec fn signed_value(v: Seq<u8>, min: int, max: int) -> Result<int, ConversionError> {
    match value_text(v) {
        None => Err(ConversionError::EncodingError),
        Some(t) => match parse_signed(t, min, max) {
            Some(n) => Ok(n),
            None => Err(ConversionError::IntParseErr),
        },
    }
}

fn unsigned_field(value: &FieldValue, max: u128) -> (r: Result<u128, ConversionError>)
    requires
        max >= 9,
    ensures
        match unsigned_value(value@, max as nat) {
            Ok(n) => r == Ok::<u128, ConversionError>(n as u128),
            Err(e) => r == Err::<u128, ConversionError>(e),
        },
{
    let text: Result<&str, ConversionError> = TryFrom::try_from(value);
    match text {
        Err(e) => Err(e),
        Ok(s) => {
            let cs = str_chars(s);
            match parse_unsigned_chars(cs.as_slice(), max) {
                Some(n) => Ok(n),
                None => Err(ConversionError::IntParseErr),
            }
        },
    }
}

fn signed_field(value: &FieldValue, min: i128, max: i128) -> (r: Result<i128, ConversionError>)
    requires
        min == -max - 1,
        max >= 9,
    ensures
        match signed_value(value@, min as int, max as int) {
            Ok(n) => r == Ok::<i128, ConversionError>(n as i128),
            Err(e) => r == Err::<i128, ConversionError>(e),
        },
{
    let text: Result<&str, ConversionError> = TryFrom::try_from(value);
    match text {
        Err(e) => Err(e),
        Ok(s) => {
            let cs = str_chars(s);
            match parse_signed_chars(cs.as_slice(), min, max) {
                Some(n) => Ok(n),
                None => Err(ConversionError::IntParseErr),
            }
        },
    }
}

impl<'a> TryFrom<&'a FieldValue> for u8 {
    type Error = ConversionError;

    /// The value read as a decimal `u8`.
    open spec fn converts(value: &'a FieldValue, r: Result<u8, ConversionError>) -> bool {
        match unsigned_value(value@, u8::MAX as nat) {
            Ok(n) => r == Ok::<u8, ConversionError>(n as u8),
            Err(e) => r == Err::<u8, ConversionError>(e),
        }
    }

    fn try_from(value: &'a FieldValue) -> Result<u8, ConversionError> {
        match unsigned_field(value, 0xff) {
            Ok(n) => Ok(n as u8),
            Err(e) => Err(e),
        }
    }
}

impl<'a> TryFrom<&'a FieldValue> for u16 {
    type Error = ConversionError;

    /// The value read as a decimal `u16`.
    open spec fn converts(value: &'a FieldValue, r: Result<u16, ConversionError>) -> bool {
        match unsigned_value(value@, u16::MAX as nat) {
            Ok(n) => r == Ok::<u16, ConversionError>(n as u16),
            Err(e) => r == Err::<u16, ConversionError>(e),
        }
    }

    fn try_from(value: &'a FieldValue) -> Result<u16, ConversionError> {
        match unsigned_field(value, 0xffff) {
            Ok(n) => Ok(n as u16),
            Err(e) => Err(e),
        }
    }
}

impl<'a> TryFrom<&'a FieldValue> for u32 {
    type Error = ConversionError;

    /// The value read as a decimal `u32`.
    open spec fn converts(value: &'a FieldValue, r: Result<u32, ConversionError>) -> bool {
        match unsigned_value(value@, u32::MAX as nat) {
            Ok(n) => r == Ok::<u32, ConversionError>(n as u32),
            Err(e) => r == Err::<u32, ConversionError>(e),
        }
    }

    fn try_from(value: &'a FieldValue) -> Result<u32, ConversionError> {
        match unsigned_field(value, 0xffff_ffff) {
            Ok(n) => Ok(n as u32),
            Err(e) => Err(e),
        }
    }
}

impl<'a> TryFrom<&'a FieldValue> for u64 {
    type Error = ConversionError;

    /// The value read as a decimal `u64`.
    open spec fn converts(value: &'a FieldValue, r: Result<u64, ConversionError>) -> bool {
        match unsigned_value(value@, u64::MAX as nat) {
            Ok(n) => r == Ok::<u64, ConversionError>(n as u64),
            Err(e) => r == Err::<u64, ConversionError>(e),
        }
    }

    fn try_from(value: &'a FieldValue) -> Result<u64, ConversionError> {
        match unsigned_field(value, 0xffff_ffff_ffff_ffff) {
            Ok(n) => Ok(n as u64),
            Err(e) => Err(e),
        }
    }
}

impl<'a> TryFrom<&'a FieldValue> for u128 {
    type Error = ConversionError;

    /// The value read as a decimal `u128`.
    open spec fn converts(value: &'a FieldValue, r: Result<u128, ConversionError>) -> bool {
        match unsigned_value(value@, u128::MAX as nat) {
            Ok(n) => r == Ok::<u128, ConversionError>(n as u128),
            Err(e) => r == Err::<u128, ConversionError>(e),
        }
    }

    fn try_from(value: &'a FieldValue) -> Result<u128, ConversionError> {
        match unsigned_field(value, 0xffff_ffff_ffff_ffff_ffff_ffff_ffff_ffff) {
            Ok(n) => Ok(n),
            Err(e) => Err(e),
        }
    }
}

impl<'a> TryFrom<&'a FieldValue> for i8 {
    type Error = ConversionError;

    /// The value read as a decimal `i8`.
    open spec fn converts(value: &'a FieldValue, r: Result<i8, ConversionError>) -> bool {
        match signed_value(value@, i8::MIN as int, i8::MAX as int) {
            Ok(n) => r == Ok::<i8, ConversionError>(n as i8),
            Err(e) => r == Err::<i8, ConversionError>(e),
        }
    }

    fn try_from(value: &'a FieldValue) -> Result<i8, ConversionError> {
        match signed_field(value, -0x80, 0x7f) {
            Ok(n) => Ok(n as i8),
            Err(e) => Err(e),
        }
    }
}

impl<'a> TryFrom<&'a FieldValue> for i16 {
    type Error = ConversionError;

    /// The value read as a decimal `i16`.
    open spec fn converts(value: &'a FieldValue, r: Result<i16, ConversionError>) -> bool {
        match signed_value(value@, i16::MIN as int, i16::MAX as int) {
            Ok(n) => r == Ok::<i16, ConversionError>(n as i16),
            Err(e) => r == Err::<i16, ConversionError>(e),
        }
    }

    fn try_from(value: &'a FieldValue) -> Result<i16, ConversionError> {
        match signed_field(value, -0x8000, 0x7fff) {
            Ok(n) => Ok(n as i16),
            Err(e) => Err(e),
        }
    }
}

impl<'a> TryFrom<&'a FieldValue> for i32 {
    type Error = ConversionError;

    /// The value read as a decimal `i32`.
    open spec fn converts(value: &'a FieldValue, r: Result<i32, ConversionError>) -> bool {
        match signed_value(value@, i32::MIN as int, i32::MAX as int) {
            Ok(n) => r == Ok::<i32, ConversionError>(n as i32),
            Err(e) => r == Err::<i32, ConversionError>(e),
        }
    }

    fn try_from(value: &'a FieldValue) -> Result<i32, ConversionError> {
        match signed_field(value, -0x8000_0000, 0x7fff_ffff) {
            Ok(n) => Ok(n as i32),
            Err(e) => Err(e),
        }
    }
}

impl<'a> TryFrom<&'a FieldValue> for i64 {
    type Error = ConversionError;

    /// The value read as a decimal `i64`.
    open spec fn converts(value: &'a FieldValue, r: Result<i64, ConversionError>) -> bool {
        match signed_value(value@, i64::MIN as int, i64::MAX as int) {
            Ok(n) => r == Ok::<i64, ConversionError>(n as i64),
            Err(e) => r == Err::<i64, ConversionError>(e),
        }
    }

    fn try_from(value: &'a FieldValue) -> Result<i64, ConversionError> {
        match signed_field(value, -0x8000_0000_0000_0000, 0x7fff_ffff_ffff_ffff) {
            Ok(n) => Ok(n as i64),
            Err(e) => Err(e),
        }
    }
}

impl<'a> TryFrom<&'a FieldValue> for i128 {
    type Error = ConversionError;

    /// The value read as a decimal `i128`.
    open spec fn converts(value: &'a FieldValue, r: Result<i128, ConversionError>) -> bool {
        match signed_value(value@, i128::MIN as int, i128::MAX as int) {
            Ok(n) => r == Ok::<i128, ConversionError>(n as i128),
            Err(e) => r == Err::<i128, ConversionError>(e),
        }
    }

    fn try_from(value: &'a FieldValue) -> Result<i128, ConversionError> {
        match signed_field(value, (-0x7fff_ffff_ffff_ffff_ffff_ffff_ffff_ffffi128 - 1), 0x7fff_ffff_ffff_ffff_ffff_ffff_ffff_ffff) {
            Ok(n) => Ok(n),
            Err(e) => Err(e),
        }
    }
}

} // verus!
