//! Conversions of field values.
use vstd::prelude::*;

pub mod datetime;
mod integer;
mod string;

pub use integer::{signed_value, unsigned_value};
pub use string::value_text;

verus! {

/// The value of a field, as bytes.
pub type FieldValue = Vec<u8>;

/// A conversion that may fail.
pub trait TryFrom<T> where Self: Sized {
    type Error;

    /// Whether `r` is what converting `value` gives.
    spec fn converts(value: T, r: Result<Self, Self::Error>) -> bool;

    fn try_from(value: T) -> (r: Result<Self, Self::Error>)
        ensures
            Self::converts(value, r),
    ;
}

} // verus!
