//! The streaming extractor: one strictly forward pass over a file's
//! records, emitting the records at an ascending (possibly repeating)
//! sequence of indices, in index order.
//!
//! The decisions live in the [`Extractor`] state machine, so a caller that
//! reads records from a file one at a time can drive it without any logic
//! of its own; [`extract_records`] drives the same machine over records
//! already in memory.

use vstd::prelude::*;
use crate::record::{Record, RecordData};
use crate::selector::{sorted_ascending, all_below, identity_indices};
use crate::sink::OutputSink;

verus! {

/// What the driver of an [`Extractor`] must do next.
pub enum ExtractStep {
    /// Read the next record from the stream and report it with
    /// [`Extractor::record_loaded`].
    ReadRecord,
    /// Emit the record read most recently (again, for a repeated index) and
    /// report it with [`Extractor::record_emitted`].
    EmitCurrent,
    /// Every requested index has been emitted.
    Finished,
}

/// The cursor state of one forward extraction pass. The cursor only ever
/// moves forward, one record per `ReadRecord` step, so the stream is read
/// start-to-finish at most once however many indices are requested.
pub struct Extractor {
    indices: Vec<u64>,
    pos: usize,
    cursor: u64,
    loaded: bool,
}

impl Extractor {
    /// The requested indices, ascending.
    pub closed spec fn index_seq(&self) -> Seq<u64> {
        self.indices@
    }

    /// How many of the requested indices have been emitted.
    pub closed spec fn emitted_count(&self) -> int {
        self.pos as int
    }

    /// The index of the record read most recently.
    pub closed spec fn cursor_at(&self) -> int {
        self.cursor as int
    }

    /// Whether a record has been read and is held for emission.
    pub closed spec fn holds_record(&self) -> bool {
        self.loaded
    }

    /// How many records of the stream have been read: the cursor only ever
    /// advances, so this equals one past the held record's index.
    pub open spec fn records_read(&self) -> int {
        if self.holds_record() {
            self.cursor_at() + 1
        } else {
            0
        }
    }

    /// The machine's invariant: the demand sequence is ascending and the
    /// cursor never passes the next requested index.
    pub closed spec fn wf(&self) -> bool {
        &&& sorted_ascending(self.indices@)
        &&& self.pos <= self.indices@.len()
        &&& (self.loaded && self.pos < self.indices@.len() ==> self.cursor
            <= self.indices@[self.pos as int])
    }

    /// Starts a pass over the given ascending index sequence.
    pub fn new(indices: Vec<u64>) -> (e: Extractor)
        requires
            sorted_ascending(indices@),
        ensures
            e.wf(),
            e.index_seq() == indices@,
            e.emitted_count() == 0,
            !e.holds_record(),
    {
        Extractor { indices, pos: 0, cursor: 0, loaded: false }
    }

    /// How many indices have been emitted so far.
    pub fn position(&self) -> (p: usize)
        ensures
            p == self.emitted_count(),
    {
        self.pos
    }

    /// The index of the held record; meaningful once one was read.
    pub fn cursor_index(&self) -> (c: u64)
        ensures
            c == self.cursor_at(),
    {
        self.cursor
    }

    /// Decides the next step: finish when all indices are emitted, read
    /// while the next requested index lies ahead of the cursor, and emit
    /// the held record while it matches the next requested index.
    pub fn next_step(&self) -> (s: ExtractStep)
        requires
            self.wf(),
        ensures
            s is Finished <==> self.emitted_count() == self.index_seq().len(),
            s is ReadRecord <==> (self.emitted_count() < self.index_seq().len() && (
            !self.holds_record() || self.index_seq()[self.emitted_count()] > self.cursor_at())),
            s is EmitCurrent <==> (self.emitted_count() < self.index_seq().len()
                && self.holds_record() && self.index_seq()[self.emitted_count()]
                == self.cursor_at()),
    {
        if self.pos == self.indices.len() {
            ExtractStep::Finished
        } else if !self.loaded || self.indices[self.pos] > self.cursor {
            ExtractStep::ReadRecord
        } else {
            ExtractStep::EmitCurrent
        }
    }

    /// Reports that the driver read the next record of the stream. The
    /// cursor moves to it: to index zero for the first record, else one
    /// past the previous one — never backward.
    pub fn record_loaded(&mut self)
        requires
            old(self).wf(),
            old(self).emitted_count() < old(self).index_seq().len(),
            !old(self).holds_record() || old(self).index_seq()[old(self).emitted_count()] > old(
                self,
            ).cursor_at(),
        ensures
            final(self).wf(),
            final(self).index_seq() == old(self).index_seq(),
            final(self).emitted_count() == old(self).emitted_count(),
            final(self).holds_record(),
            final(self).cursor_at() == if old(self).holds_record() {
                old(self).cursor_at() + 1
            } else {
                0
            },
            final(self).records_read() == old(self).records_read() + 1,
            final(self).cursor_at() <= final(self).index_seq()[final(self).emitted_count()],
    {
        if self.loaded {
            self.cursor = self.cursor + 1;
        } else {
            self.cursor = 0;
            self.loaded = true;
        }
    }

    /// Reports that the driver emitted the held record for the next
    /// requested index; the cursor stays, so a repeated index re-emits the
    /// same record without reading further.
    pub fn record_emitted(&mut self)
        requires
            old(self).wf(),
            old(self).emitted_count() < old(self).index_seq().len(),
            old(self).holds_record(),
            old(self).index_seq()[old(self).emitted_count()] == old(self).cursor_at(),
        ensures
            final(self).wf(),
            final(self).index_seq() == old(self).index_seq(),
            final(self).emitted_count() == old(self).emitted_count() + 1,
            final(self).holds_record(),
            final(self).cursor_at() == old(self).cursor_at(),
            final(self).records_read() == old(self).records_read(),
    {
        let n = self.indices.len();
        assert(self.pos < n);
        self.pos = self.pos + 1;
    }
}

/// The records a demand sequence picks out of a file's records, in demand
/// order.
pub open spec fn picked(records: Seq<Record>, idx: Seq<u64>) -> Seq<RecordData> {
    idx.map_values(|i: u64| records[i as int]@)
}

/// Extracts the records at the given ascending indices from an in-memory
/// run of records, emitting each to the sink in index order; a repeated
/// index emits the same record again.
pub fn extract_records(records: &Vec<Record>, indices: Vec<u64>, sink: &mut OutputSink)
    requires
        sorted_ascending(indices@),
        all_below(indices@, records@.len() as u64),
        records@.len() <= u64::MAX,
        old(sink).wf(),
        old(sink).emitted().len() + indices@.len() <= u64::MAX,
    ensures
        final(sink).wf(),
        final(sink).emitted() == old(sink).emitted() + picked(records@, indices@),
{
    let ghost idx = indices@;
    let ghost base = old(sink).emitted();
    let record_total = records.len();
    let n = indices.len();
    let mut ex = Extractor::new(indices);
    proof {
        assert(idx.take(0) =~= Seq::<u64>::empty());
        assert(picked(records@, idx.take(0)) =~= Seq::<RecordData>::empty());
        assert(base + picked(records@, idx.take(0)) =~= base);
    }
    while ex.position() < n
        invariant
            ex.wf(),
            ex.index_seq() == idx,
            idx.len() == n,
            all_below(idx, records@.len() as u64),
            records@.len() == record_total,
            ex.holds_record() ==> ex.cursor_at() < records@.len(),
            sink.wf(),
            base.len() + idx.len() <= u64::MAX,
            sink.emitted() == base + picked(records@, idx.take(ex.emitted_count())),
            sink.emitted().len() == base.len() + ex.emitted_count(),
        decreases idx.len() - ex.emitted_count(),
    {
        let ghost pos0 = ex.emitted_count();
        loop
            invariant
                ex.wf(),
                ex.index_seq() == idx,
                ex.emitted_count() == pos0,
                pos0 < idx.len(),
                all_below(idx, records@.len() as u64),
                ex.holds_record() ==> ex.cursor_at() < records@.len(),
            ensures
                ex.wf(),
                ex.index_seq() == idx,
                ex.emitted_count() == pos0,
                ex.holds_record(),
                ex.cursor_at() == idx[pos0],
                ex.cursor_at() < records@.len(),
            decreases idx[pos0] + 1 - if ex.holds_record() {
                ex.cursor_at()
            } else {
                -1
            },
        {
            match ex.next_step() {
                ExtractStep::ReadRecord => {
                    ex.record_loaded();
                },
                ExtractStep::EmitCurrent => {
                    break ;
                },
                ExtractStep::Finished => {
                    proof {
                        assert(false);
                    }
                },
            }
        }
        let c = ex.cursor_index();
        let held: &Record = &records[c as usize];
        sink.emit(held);
        ex.record_emitted();
        proof {
            assert(idx.take(ex.emitted_count()) =~= idx.take(pos0).push(idx[pos0]));
            assert(picked(records@, idx.take(ex.emitted_count())) =~= picked(
                records@,
                idx.take(pos0),
            ).push(records@[idx[pos0] as int]@));
            assert(base + picked(records@, idx.take(ex.emitted_count())) =~= (base + picked(
                records@,
                idx.take(pos0),
            )).push(records@[idx[pos0] as int]@));
            assert(*held == records@[c as int]);
        }
    }
    proof {
        assert(idx.take(idx.len() as int) =~= idx);
    }
}

/// The mathematical values of a run of records, in order.
pub open spec fn record_views(rs: Seq<Record>) -> Seq<RecordData> {
    rs.map_values(|r: Record| r@)
}

/// Concatenation mode for one file: emits every record, in order, to the
/// sink. The demand sequence is simply every index ascending, so the count
/// emitted equals the file's record count.
pub fn concat_records(records: &Vec<Record>, sink: &mut OutputSink)
    requires
        old(sink).wf(),
        old(sink).emitted().len() + records@.len() <= u64::MAX,
    ensures
        final(sink).wf(),
        final(sink).emitted() == old(sink).emitted() + record_views(records@),
{
    let n = records.len();
    let idxs = identity_indices(n as u64);
    proof {
        assert(sorted_ascending(idxs@));
        assert(all_below(idxs@, records@.len() as u64));
    }
    let ghost ids = idxs@;
    extract_records(records, idxs, sink);
    proof {
        assert(picked(records@, ids) =~= record_views(records@));
    }
}

/// The values of every record of a run of files, in file order.
pub open spec fn flatten_views(files: Seq<Vec<Record>>) -> Seq<RecordData>
    decreases files.len(),
{
    if files.len() == 0 {
        Seq::empty()
    } else {
        record_views(files[0]@) + flatten_views(files.drop_first())
    }
}

/// The total record count of a run of files.
pub open spec fn total_records(files: Seq<Vec<Record>>) -> int
    decreases files.len(),
{
    if files.len() == 0 {
        0
    } else {
        files[0]@.len() + total_records(files.drop_first())
    }
}

/// Flattening one more file appends its records.
proof fn lemma_flatten_push(files: Seq<Vec<Record>>, f: Vec<Record>)
    ensures
        flatten_views(files.push(f)) == flatten_views(files) + record_views(f@),
        total_records(files.push(f)) == total_records(files) + f@.len(),
    decreases files.len(),
{
    if files.len() == 0 {
        assert(files.push(f)[0] == f);
        assert(files.push(f).drop_first() =~= Seq::<Vec<Record>>::empty());
        assert(flatten_views(files.push(f)) == record_views(files.push(f)[0]@) + flatten_views(
            files.push(f).drop_first(),
        ));
        assert(total_records(files.push(f)) == files.push(f)[0]@.len() + total_records(
            files.push(f).drop_first(),
        ));
        assert(flatten_views(files.push(f)) =~= flatten_views(files) + record_views(f@));
    } else {
        assert(files.push(f)[0] == files[0]);
        assert(files.push(f).drop_first() =~= files.drop_first().push(f));
        lemma_flatten_push(files.drop_first(), f);
        assert(flatten_views(files.push(f)) == record_views(files.push(f)[0]@) + flatten_views(
            files.push(f).drop_first(),
        ));
        assert(total_records(files.push(f)) == files.push(f)[0]@.len() + total_records(
            files.push(f).drop_first(),
        ));
        assert(flatten_views(files.push(f)) =~= flatten_views(files) + record_views(f@));
    }
}

/// Every record of a run of files has its count in the total.
proof fn lemma_total_records_take(files: Seq<Vec<Record>>, i: int)
    requires
        0 <= i < files.len(),
    ensures
        total_records(files.take(i + 1)) == total_records(files.take(i)) + files[i]@.len(),
{
    assert(files.take(i).push(files[i]) =~= files.take(i + 1));
    lemma_flatten_push(files.take(i), files[i]);
}

/// Concatenation mode over a whole run of files: every record of every
/// file is emitted, in file order then record order, so the output record
/// count equals the sum of the input record counts, and the identifiers
/// are the dense sequence `0, 1, 2, …` across file boundaries.
pub fn concat_all(files: &Vec<Vec<Record>>, sink: &mut OutputSink)
    requires
        old(sink).wf(),
        old(sink).emitted().len() + total_records(files@) <= u64::MAX,
    ensures
        final(sink).wf(),
        final(sink).emitted() == old(sink).emitted() + flatten_views(files@),
        final(sink).emitted().len() == old(sink).emitted().len() + total_records(files@),
{
    let ghost base = old(sink).emitted();
    let mut i: usize = 0;
    proof {
        assert(files@.take(0) =~= Seq::<Vec<Record>>::empty());
        assert(base + flatten_views(files@.take(0)) =~= base);
        lemma_total_records_nonneg(files@);
    }
    while i < files.len()
        invariant
            i <= files@.len(),
            sink.wf(),
            base.len() + total_records(files@) <= u64::MAX,
            sink.emitted() == base + flatten_views(files@.take(i as int)),
            sink.emitted().len() == base.len() + total_records(files@.take(i as int)),
        decreases files@.len() - i,
    {
        proof {
            lemma_total_records_take(files@, i as int);
            lemma_total_records_bound(files@, i as int + 1);
        }
        concat_records(&files[i], sink);
        proof {
            assert(files@.take(i as int).push(files@[i as int]) =~= files@.take(i + 1));
            lemma_flatten_push(files@.take(i as int), files@[i as int]);
            assert(base + flatten_views(files@.take(i + 1)) =~= (base + flatten_views(
                files@.take(i as int),
            )) + record_views(files@[i as int]@));
        }
        i += 1;
    }
    proof {
        assert(files@.take(files@.len() as int) =~= files@);
    }
}

/// A run of files never holds a negative number of records.
proof fn lemma_total_records_nonneg(files: Seq<Vec<Record>>)
    ensures
        total_records(files) >= 0,
    decreases files.len(),
{
    if files.len() > 0 {
        lemma_total_records_nonneg(files.drop_first());
    }
}

/// A prefix of a run of files holds at most the whole run's records.
proof fn lemma_total_records_bound(files: Seq<Vec<Record>>, i: int)
    requires
        0 <= i <= files.len(),
    ensures
        total_records(files.take(i)) <= total_records(files),
    decreases files.len() - i,
{
    if i < files.len() {
        lemma_total_records_take(files, i);
        lemma_total_records_bound(files, i + 1);
    } else {
        assert(files.take(i) =~= files);
    }
}

} // verus!
