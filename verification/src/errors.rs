//! The fatal error kinds of the sampling pipeline.

use vstd::prelude::*;

verus! {

/// Why a pipeline stage failed. Every error is fatal: the caller reports it
/// and discards any partially written output.
#[derive(Clone, Copy, Debug, PartialEq, Eq, Structural)]
pub enum SampleError {
    /// A counter (record count, running total, per-file tally) would exceed
    /// its capacity.
    Overflow,
    /// Two input files report different record formats.
    FormatMismatch,
    /// More records were requested than exist, in the without-repetition
    /// regime.
    InsufficientEntries,
    /// The weighted sampling structure could not be rebuilt from the
    /// remaining counts.
    WeightUpdate,
}

impl SampleError {
    /// A single diagnostic line for this failure.
    pub fn message(&self) -> (m: &'static str)
        ensures
            m@.len() > 0,
    {
        proof {
            reveal_strlit("a record counter exceeded its capacity");
            reveal_strlit("input files use mismatched record formats");
            reveal_strlit("more records were requested than the inputs hold");
            reveal_strlit("the sampling weights could not be updated");
        }
        match self {
            SampleError::Overflow => "a record counter exceeded its capacity",
            SampleError::FormatMismatch => "input files use mismatched record formats",
            SampleError::InsufficientEntries => {
                "more records were requested than the inputs hold"
            },
            SampleError::WeightUpdate => "the sampling weights could not be updated",
        }
    }
}

} // verus!
