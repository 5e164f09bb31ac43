//! Limits on tag numbers.
use vstd::prelude::*;

verus! {

/// The smallest tag of a user-defined field.
pub const USER_MIN: u32 = 5000;

} // verus!
