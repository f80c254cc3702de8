//! The record model: sequence bytes with optional quality bytes. A record's
//! identity is purely positional; its original identifier is discarded and
//! replaced on output.

use vstd::prelude::*;

verus! {

/// One sequence record, read from an input file. The quality bytes are
/// present exactly when the source format carries quality data.
pub struct Record {
    pub sequence: Vec<u8>,
    pub quality: Option<Vec<u8>>,
}

/// The mathematical value of a record.
pub struct RecordData {
    pub sequence: Seq<u8>,
    pub quality: Option<Seq<u8>>,
}

impl View for Record {
    type V = RecordData;

    open spec fn view(&self) -> RecordData {
        RecordData {
            sequence: self.sequence@,
            quality: match self.quality {
                Some(q) => Some(q@),
                None => None,
            },
        }
    }
}

impl Record {
    /// Whether this record carries quality data, which decides the output
    /// format used for it.
    pub fn has_quality(&self) -> (b: bool)
        ensures
            b == (self@.quality is Some),
    {
        self.quality.is_some()
    }
}

/// The coarse per-file format tag the cataloguer compares across files.
#[derive(Clone, Copy, Debug, PartialEq, Eq, Structural)]
pub enum RecordFormat {
    /// Records carry sequence data only.
    SequenceOnly,
    /// Records carry sequence and quality data.
    SequenceWithQuality,
}

} // verus!
