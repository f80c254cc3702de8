//! Out-of-core sampling and concatenation over collections of sequence
//! records.
//!
//! The crate catalogues per-file record counts, allocates a global draw
//! budget across files by weighted random selection (with or without
//! repetition), turns each file's budget into a sorted sequence of record
//! indices, extracts exactly those records in one forward pass per file,
//! and re-emits them under fresh sequential identifiers.

pub mod catalogue;
pub mod errors;
pub mod extractor;
pub mod numeric;
pub mod planner;
pub mod rand_ext;
pub mod record;
pub mod selector;
pub mod sink;
