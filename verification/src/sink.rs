//! The output sink: re-identifies each extracted record under a dense
//! sequential counter and serializes it in the format implied by the
//! presence of quality data on that record.

use vstd::prelude::*;
use crate::record::{Record, RecordData};

verus! {

/// The decimal digits of a counter value, most significant first.
pub open spec fn dec_of(n: nat) -> Seq<u8>
    decreases n,
{
    if n < 10 {
        seq![(48 + n) as u8]
    } else {
        dec_of(n / 10).push((48 + n % 10) as u8)
    }
}

/// The serialized form of one record under one identifier: the
/// sequence-only grammar is `>id\nsequence\n`; the quality-bearing grammar
/// is `@id\nsequence\n+\nquality\n`.
pub open spec fn encode_record(r: RecordData, id: Seq<u8>) -> Seq<u8> {
    match r.quality {
        None => seq![62u8] + id + seq![10u8] + r.sequence + seq![10u8],
        Some(q) => seq![64u8] + id + seq![10u8] + r.sequence + seq![10u8, 43u8, 10u8] + q + seq![
            10u8,
        ],
    }
}

/// The serialized form of a run of records whose identifiers count up from
/// `start`: the whole output stream is `render(records, 0)`.
pub open spec fn render(rs: Seq<RecordData>, start: nat) -> Seq<u8>
    decreases rs.len(),
{
    if rs.len() == 0 {
        Seq::empty()
    } else {
        encode_record(rs[0], dec_of(start)) + render(rs.drop_first(), start + 1)
    }
}

/// Emitting one more record appends its serialized form, under the next
/// counter value, to the stream.
pub proof fn lemma_render_push(rs: Seq<RecordData>, r: RecordData, start: nat)
    ensures
        render(rs.push(r), start) == render(rs, start) + encode_record(
            r,
            dec_of(start + rs.len()),
        ),
    decreases rs.len(),
{
    if rs.len() == 0 {
        assert(rs.push(r)[0] == r);
        assert(rs.push(r).drop_first() =~= Seq::<RecordData>::empty());
        assert(render(rs.push(r), start) == encode_record(r, dec_of(start)) + render(
            rs.push(r).drop_first(),
            start + 1,
        ));
        assert(render(rs.push(r).drop_first(), start + 1) == Seq::<u8>::empty());
        assert(render(rs, start) == Seq::<u8>::empty());
        assert(start + rs.len() == start);
        assert(render(rs.push(r), start) =~= render(rs, start) + encode_record(
            r,
            dec_of(start + rs.len()),
        ));
    } else {
        assert(rs.push(r).drop_first() =~= rs.drop_first().push(r));
        lemma_render_push(rs.drop_first(), r, start + 1);
        assert(render(rs.push(r), start) =~= render(rs, start) + encode_record(
            r,
            dec_of(start + rs.len()),
        ));
    }
}

/// The decimal digits of a counter value, as bytes.
fn decimal_digits(n: u64) -> (v: Vec<u8>)
    ensures
        v@ == dec_of(n as nat),
    decreases n,
{
    if n < 10 {
        let mut v: Vec<u8> = Vec::new();
        v.push(48 + (n as u8));
        proof {
            assert(v@ =~= dec_of(n as nat));
        }
        v
    } else {
        let mut v = decimal_digits(n / 10);
        v.push(48 + ((n % 10) as u8));
        v
    }
}

/// Relies on `seq_io::fasta::write_parts` with no description: appends
/// `>id\nsequence\n` to the buffer. Writing into a byte vector cannot fail.
#[verifier::external_body]
fn append_fasta(out: &mut Vec<u8>, id: &Vec<u8>, sequence: &Vec<u8>)
    ensures
        final(out)@ == old(out)@ + seq![62u8] + id@ + seq![10u8] + sequence@ + seq![10u8],
{
    seq_io::fasta::write_parts(&mut *out, id.as_slice(), None, sequence.as_slice()).unwrap();
}

/// Relies on `seq_io::fastq::write_parts` with no description: appends
/// `@id\nsequence\n+\nquality\n` to the buffer. Writing into a byte vector
/// cannot fail.
#[verifier::external_body]
fn append_fastq(out: &mut Vec<u8>, id: &Vec<u8>, sequence: &Vec<u8>, quality: &Vec<u8>)
    ensures
        final(out)@ == old(out)@ + seq![64u8] + id@ + seq![10u8] + sequence@ + seq![
            10u8,
            43u8,
            10u8,
        ] + quality@ + seq![10u8],
{
    seq_io::fastq::write_parts(
        &mut *out,
        id.as_slice(),
        None,
        sequence.as_slice(),
        quality.as_slice(),
    ).unwrap();
}

/// Accumulates the output stream. Identifiers are the dense sequence
/// `0, 1, 2, …` in emission order, with no gaps or repeats; each record is
/// serialized in the grammar implied by its own quality data.
pub struct OutputSink {
    pending: Vec<u8>,
    next_index: u64,
    emitted: Ghost<Seq<RecordData>>,
    drained: Ghost<Seq<u8>>,
}

impl OutputSink {
    /// The records emitted so far, in emission order.
    pub closed spec fn emitted(&self) -> Seq<RecordData> {
        self.emitted@
    }

    /// The whole output stream produced so far: the part already handed to
    /// the caller followed by the part still buffered.
    pub closed spec fn output(&self) -> Seq<u8> {
        self.drained@ + self.pending@
    }

    /// The buffered part of the stream, not yet handed to the caller.
    pub closed spec fn buffered(&self) -> Seq<u8> {
        self.pending@
    }

    /// The sink's invariant: the stream is exactly the serialized form of
    /// the emitted records, identified `0, 1, 2, …` in order.
    pub closed spec fn wf(&self) -> bool {
        &&& self.output() == render(self.emitted@, 0)
        &&& self.next_index == self.emitted@.len()
    }

    /// A fresh sink with an empty stream and the counter at zero.
    pub fn new() -> (s: OutputSink)
        ensures
            s.wf(),
            s.emitted() == Seq::<RecordData>::empty(),
            s.output() == Seq::<u8>::empty(),
            s.buffered() == Seq::<u8>::empty(),
    {
        let s = OutputSink {
            pending: Vec::new(),
            next_index: 0,
            emitted: Ghost(Seq::empty()),
            drained: Ghost(Seq::empty()),
        };
        proof {
            assert(s.output() =~= render(s.emitted@, 0));
            assert(s.output() =~= Seq::<u8>::empty());
        }
        s
    }

    /// How many records have been emitted.
    pub fn record_count(&self) -> (n: u64)
        requires
            self.wf(),
        ensures
            n == self.emitted().len(),
    {
        self.next_index
    }

    /// Writes one record to the stream under the current counter value as
    /// its identifier, then advances the counter.
    pub fn emit(&mut self, r: &Record)
        requires
            old(self).wf(),
            old(self).emitted().len() < u64::MAX,
        ensures
            final(self).wf(),
            final(self).emitted() == old(self).emitted().push(r@),
            final(self).output() == old(self).output() + encode_record(
                r@,
                dec_of(old(self).emitted().len() as nat),
            ),
    {
        let id = decimal_digits(self.next_index);
        match &r.quality {
            None => append_fasta(&mut self.pending, &id, &r.sequence),
            Some(q) => append_fastq(&mut self.pending, &id, &r.sequence, q),
        }
        self.next_index = self.next_index + 1;
        proof {
            lemma_render_push(self.emitted@, r@, 0);
            self.emitted@ = self.emitted@.push(r@);
            assert(self.output() =~= render(self.emitted@, 0));
        }
    }

    /// Hands the buffered part of the stream to the caller, which is
    /// responsible for writing it out, and empties the buffer. The stream
    /// itself is unchanged.
    pub fn take_buffered(&mut self) -> (b: Vec<u8>)
        requires
            old(self).wf(),
        ensures
            final(self).wf(),
            final(self).emitted() == old(self).emitted(),
            final(self).output() == old(self).output(),
            final(self).buffered() == Seq::<u8>::empty(),
            b@ == old(self).buffered(),
    {
        let mut b: Vec<u8> = Vec::new();
        core::mem::swap(&mut b, &mut self.pending);
        proof {
            self.drained@ = self.drained@ + b@;
            assert(self.output() =~= old(self).output());
        }
        b
    }
}

/// A well-formed sink's stream is exactly the serialized form of its
/// emitted records under the dense identifier sequence `0, 1, 2, …`: the
/// record emitted at position `j` carries identifier `dec_of(j)`, with no
/// gap and no repeat.
pub proof fn lemma_identifiers_dense(s: &OutputSink)
    requires
        s.wf(),
    ensures
        s.output() == render(s.emitted(), 0),
        s.emitted().len() > 0 ==> s.output() == encode_record(s.emitted()[0], dec_of(0)) + render(
            s.emitted().drop_first(),
            1,
        ),
{
}

/// Two sinks that were fed the same records hold byte-identical streams:
/// the output is a function of the emitted records alone, with no hidden
/// state.
pub proof fn lemma_output_deterministic(a: &OutputSink, b: &OutputSink)
    requires
        a.wf(),
        b.wf(),
        a.emitted() == b.emitted(),
    ensures
        a.output() == b.output(),
{
}

} // verus!
