//! The range of a resend request under way.
use vstd::prelude::*;

verus! {

/// The first and last sequence numbers that a resend request asked for, and
/// the end of the chunk asked for last, where it is chunked.
#[derive(Default, Debug, Clone, Copy, PartialEq, Eq, Structural)]
pub struct ResetRange {
    pub begin_seq_num: u32,
    pub end_seq_num: u32,
    pub chunk_end_seq_num: Option<u32>,
}

} // verus!
