//! Field values read as text.
use vstd::prelude::*;

use super::{FieldValue, TryFrom};
use crate::fields::ConversionError;
use crate::text::{bytes_as_chars, string_from_chars, utf8_str};

verus! {

/// The text that the bytes `v` encode in UTF-8, if they are valid UTF-8.
pub open spec fn value_text(v: Seq<u8>) -> Option<Seq<char>> {
    if vstd::utf8::valid_utf8(v) {
        Some(vstd::utf8::decode_utf8(v))
    } else {
        None
    }
}

impl<'a> TryFrom<&'a FieldValue> for String {
    type Error = ConversionError;

    /// Each byte read as the character with the same code.
    open spec fn converts(value: &'a FieldValue, r: Result<String, ConversionError>) -> bool {
        r matches Ok(s) && s@ == bytes_as_chars(value@)
    }

    fn try_from(value: &'a FieldValue) -> Result<String, ConversionError> {
        let mut cs: Vec<char> = Vec::new();
        let mut i: usize = 0;
        while i < value.len()
            invariant
                i <= value@.len(),
                cs@ == bytes_as_chars(value@.subrange(0, i as int)),
            decreases value@.len() - i,
        {
            cs.push(value[i] as char);
            i = i + 1;
            assert(cs@ =~= bytes_as_chars(value@.subrange(0, i as int)));
        }
        assert(value@.subrange(0, i as int) =~= value@);
        Ok(string_from_chars(cs.as_slice()))
    }
}

impl<'a> TryFrom<&'a FieldValue> for &'a str {
    type Error = ConversionError;

    /// The bytes read as UTF-8.
    open spec fn converts(value: &'a FieldValue, r: Result<&'a str, ConversionError>) -> bool {
        match value_text(value@) {
            Some(t) => r matches Ok(s) && s@ == t,
            None => r matches Err(ConversionError::EncodingError),
        }
    }

    fn try_from(value: &'a FieldValue) -> Result<&'a str, ConversionError> {
        match utf8_str(value.as_slice()) {
            Some(s) => Ok(s),
            None => Err(ConversionError::EncodingError),
        }
    }
}

} // verus!
