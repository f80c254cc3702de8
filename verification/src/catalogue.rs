//! The cataloguer: exact per-file record counts, a running total, and the
//! coarse format-consistency check across files.

use vstd::prelude::*;
use crate::errors::SampleError;
use crate::numeric::{sum_seq, lemma_sum_push};
use crate::record::RecordFormat;

verus! {

/// Accumulates the catalogue of the input files: one exact record count
/// per file, their running total, and the format the first file with a
/// detected format established.
pub struct Cataloguer {
    counts: Vec<u64>,
    total: u64,
    expected_format: Option<RecordFormat>,
    current: u64,
}

impl Cataloguer {
    /// The per-file record counts gathered so far, in input order.
    pub closed spec fn counts_seq(&self) -> Seq<u64> {
        self.counts@
    }

    /// The format established by the first file that reported one.
    pub closed spec fn format_spec(&self) -> Option<RecordFormat> {
        self.expected_format
    }

    /// The count of records seen in the file currently being scanned.
    pub closed spec fn current_spec(&self) -> int {
        self.current as int
    }

    /// The cataloguer's invariant: the stored total is exactly the sum of
    /// the per-file counts, so it can never misreport.
    pub closed spec fn wf(&self) -> bool {
        self.total == sum_seq(self.counts@)
    }

    /// A fresh catalogue with no files seen.
    pub fn new() -> (c: Cataloguer)
        ensures
            c.wf(),
            c.counts_seq() == Seq::<u64>::empty(),
            c.format_spec() is None,
            c.current_spec() == 0,
    {
        Cataloguer { counts: Vec::new(), total: 0, expected_format: None, current: 0 }
    }

    /// The gathered per-file counts.
    pub fn counts(&self) -> (r: &Vec<u64>)
        ensures
            r@ == self.counts_seq(),
    {
        &self.counts
    }

    /// The total record count over all finished files; by the invariant it
    /// equals the sum of the per-file counts.
    pub fn total_count(&self) -> (t: u64)
        requires
            self.wf(),
        ensures
            t == sum_seq(self.counts_seq()),
    {
        self.total
    }

    /// The format established so far, if any file reported one.
    pub fn detected_format(&self) -> (f: Option<RecordFormat>)
        ensures
            f == self.format_spec(),
    {
        self.expected_format
    }

    /// Counts one record of the file currently being scanned; fails if the
    /// per-file counter is exhausted.
    pub fn count_record(&mut self) -> (r: Result<(), SampleError>)
        ensures
            r is Ok <==> old(self).current_spec() < u64::MAX,
            r is Err ==> r == Err::<(), SampleError>(SampleError::Overflow) && *final(self)
                == *old(self),
            r is Ok ==> final(self).current_spec() == old(self).current_spec() + 1
                && final(self).counts_seq() == old(self).counts_seq() && final(self).format_spec()
                == old(self).format_spec(),
            final(self).wf() == old(self).wf(),
    {
        match self.current.checked_add(1) {
            Some(c) => {
                self.current = c;
                Ok(())
            },
            None => Err(SampleError::Overflow),
        }
    }

    /// Closes the file currently being scanned: records its count, adds it
    /// to the total, and holds its detected format against the format the
    /// first detected file established. Fails with an overflow if the
    /// running total would exceed its capacity, else with a mismatch if
    /// both formats are present and differ; a failure leaves the catalogue
    /// unchanged.
    pub fn finish_file(&mut self, fmt: Option<RecordFormat>) -> (r: Result<(), SampleError>)
        requires
            old(self).wf(),
        ensures
            final(self).wf(),
            r == Err::<(), SampleError>(SampleError::Overflow) <==> sum_seq(
                old(self).counts_seq(),
            ) + old(self).current_spec() > u64::MAX,
            r == Err::<(), SampleError>(SampleError::FormatMismatch) <==> (sum_seq(
                old(self).counts_seq(),
            ) + old(self).current_spec() <= u64::MAX && fmt is Some && old(self).format_spec()
                is Some && fmt != old(self).format_spec()),
            r is Err ==> *final(self) == *old(self),
            r is Ok ==> final(self).counts_seq() == old(self).counts_seq().push(
                old(self).current_spec() as u64,
            ) && final(self).current_spec() == 0 && final(self).format_spec() == (
            if old(self).format_spec() is Some {
                old(self).format_spec()
            } else {
                fmt
            }),
    {
        let new_total = match self.total.checked_add(self.current) {
            Some(t) => t,
            None => {
                return Err(SampleError::Overflow);
            },
        };
        match (&fmt, &self.expected_format) {
            (Some(f), Some(e)) => {
                if *f != *e {
                    return Err(SampleError::FormatMismatch);
                }
            },
            (Some(f), None) => {
                self.expected_format = Some(*f);
            },
            _ => {
            },
        }
        proof {
            lemma_sum_push(self.counts@, self.current);
        }
        self.counts.push(self.current);
        self.total = new_total;
        self.current = 0;
        Ok(())
    }

    /// Catalogues a whole file whose record count is already known, as if
    /// its records had been counted one at a time and the file finished.
    pub fn register_counted_file(&mut self, count: u64, fmt: Option<RecordFormat>) -> (r: Result<
        (),
        SampleError,
    >)
        requires
            old(self).wf(),
            old(self).current_spec() == 0,
        ensures
            final(self).wf(),
            r == Err::<(), SampleError>(SampleError::Overflow) <==> sum_seq(
                old(self).counts_seq(),
            ) + count > u64::MAX,
            r == Err::<(), SampleError>(SampleError::FormatMismatch) <==> (sum_seq(
                old(self).counts_seq(),
            ) + count <= u64::MAX && fmt is Some && old(self).format_spec() is Some
                && fmt != old(self).format_spec()),
            r is Err ==> final(self).counts_seq() == old(self).counts_seq()
                && final(self).format_spec() == old(self).format_spec()
                && final(self).current_spec() == 0,
            r is Ok ==> final(self).counts_seq() == old(self).counts_seq().push(count)
                && final(self).current_spec() == 0 && final(self).format_spec() == (
            if old(self).format_spec() is Some {
                old(self).format_spec()
            } else {
                fmt
            }),
    {
        self.current = count;
        let r = self.finish_file(fmt);
        if r.is_err() {
            self.current = 0;
        }
        r
    }
}

} // verus!
