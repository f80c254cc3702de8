use fastx_sample::catalogue::Cataloguer;
use fastx_sample::errors::SampleError;
use fastx_sample::extractor::{concat_records, extract_records, ExtractStep, Extractor};
use fastx_sample::planner::{plan_draws, DrawRegime};
use fastx_sample::rand_ext::seeded_rng;
use fastx_sample::record::Record;
use fastx_sample::selector::select_with_repetition;
use fastx_sample::sink::OutputSink;
use seq_io::fasta::Record as FastaRecordApi;

fn plain_record(sequence: &[u8]) -> Record {
    Record { sequence: sequence.to_vec(), quality: None }
}

fn numbered_records(n: usize, tag: u8) -> Vec<Record> {
    (0..n).map(|i| plain_record(format!("SEQ{}{}", char::from(tag), i).as_bytes())).collect()
}

fn expected_fasta(entries: &[(u64, &[u8])]) -> Vec<u8> {
    let mut out = Vec::new();
    for (id, sequence) in entries {
        out.extend_from_slice(format!(">{}\n", id).as_bytes());
        out.extend_from_slice(sequence);
        out.push(b'\n');
    }
    out
}

#[test]
fn sink_writes_sequence_only_grammar() {
    let mut sink = OutputSink::new();
    sink.emit(&plain_record(b"ACGT"));
    assert_eq!(sink.take_buffered(), b">0\nACGT\n".to_vec());
}

#[test]
fn sink_writes_quality_grammar() {
    let mut sink = OutputSink::new();
    sink.emit(&Record { sequence: b"AC".to_vec(), quality: Some(b"!~".to_vec()) });
    assert_eq!(sink.take_buffered(), b"@0\nAC\n+\n!~\n".to_vec());
}

#[test]
fn sink_identifiers_are_dense_decimals() {
    let mut sink = OutputSink::new();
    for _ in 0..12 {
        sink.emit(&plain_record(b"A"));
    }
    let expected: Vec<(u64, &[u8])> = (0..12).map(|i| (i, b"A".as_slice())).collect();
    assert_eq!(sink.take_buffered(), expected_fasta(&expected));
    assert_eq!(sink.record_count(), 12);
}

#[test]
fn sink_mixes_grammars_per_record() {
    let mut sink = OutputSink::new();
    sink.emit(&plain_record(b"AA"));
    sink.emit(&Record { sequence: b"CC".to_vec(), quality: Some(b"II".to_vec()) });
    assert_eq!(sink.take_buffered(), b">0\nAA\n@1\nCC\n+\nII\n".to_vec());
}

#[test]
fn extractor_repeats_and_skips() {
    // records R0..R5, demand [2, 2, 5]: emits R2, R2, R5 in one forward pass
    let records = numbered_records(6, b'x');
    let mut sink = OutputSink::new();
    extract_records(&records, vec![2, 2, 5], &mut sink);
    let expected = expected_fasta(&[
        (0, b"SEQx2".as_slice()),
        (1, b"SEQx2".as_slice()),
        (2, b"SEQx5".as_slice()),
    ]);
    assert_eq!(sink.take_buffered(), expected);
}

#[test]
fn extractor_state_machine_reads_each_record_once() {
    let mut ex = Extractor::new(vec![0, 0, 1]);
    let mut reads = 0;
    let mut emits = 0;
    loop {
        match ex.next_step() {
            ExtractStep::ReadRecord => {
                ex.record_loaded();
                reads += 1;
            }
            ExtractStep::EmitCurrent => {
                ex.record_emitted();
                emits += 1;
            }
            ExtractStep::Finished => break,
        }
    }
    // two records read (indices 0 and 1), three emissions (0 twice, 1 once)
    assert_eq!(reads, 2);
    assert_eq!(emits, 3);
}

#[test]
fn concatenation_renumbers_densely() {
    // two files of 3 and 5 records: output holds all 8, identified 0..8
    let first = numbered_records(3, b'a');
    let second = numbered_records(5, b'b');
    let mut sink = OutputSink::new();
    concat_records(&first, &mut sink);
    concat_records(&second, &mut sink);
    assert_eq!(sink.record_count(), 8);
    let entries: Vec<(u64, Vec<u8>)> = first
        .iter()
        .chain(second.iter())
        .enumerate()
        .map(|(i, r)| (i as u64, r.sequence.clone()))
        .collect();
    let borrowed: Vec<(u64, &[u8])> =
        entries.iter().map(|(i, s)| (*i, s.as_slice())).collect();
    assert_eq!(sink.take_buffered(), expected_fasta(&borrowed));
}

#[test]
fn concatenation_counts_every_file() {
    let files = vec![
        numbered_records(3, b'a'),
        numbered_records(0, b'c'),
        numbered_records(5, b'b'),
    ];
    let mut sink = OutputSink::new();
    fastx_sample::extractor::concat_all(&files, &mut sink);
    assert_eq!(sink.record_count(), 8);
    let bytes = sink.take_buffered();
    let mut reader = seq_io::fasta::Reader::new(bytes.as_slice());
    let mut ids: Vec<String> = Vec::new();
    while let Some(record) = reader.next() {
        ids.push(record.unwrap().id().unwrap().to_string());
    }
    let expected: Vec<String> = (0..8).map(|i| i.to_string()).collect();
    assert_eq!(ids, expected);
}

#[test]
fn concatenation_is_idempotent() {
    // the same inputs twice give byte-identical outputs: no hidden state
    let first = numbered_records(3, b'a');
    let second = numbered_records(5, b'b');
    let mut once = OutputSink::new();
    concat_records(&first, &mut once);
    concat_records(&second, &mut once);
    let mut twice = OutputSink::new();
    concat_records(&first, &mut twice);
    concat_records(&second, &mut twice);
    assert_eq!(once.take_buffered(), twice.take_buffered());
}

#[test]
fn sampling_with_repetition_end_to_end() {
    // two sequence-only files of 3 and 5 records, four draws with
    // repetition under a fixed seed: exactly four records come out, dense
    // identifiers, every sequence copied verbatim from some source record
    let first = numbered_records(3, b'a');
    let second = numbered_records(5, b'b');
    let mut catalogue = Cataloguer::new();
    catalogue.register_counted_file(first.len() as u64, None).unwrap();
    catalogue.register_counted_file(second.len() as u64, None).unwrap();
    let mut rng = seeded_rng(42);
    let plan = plan_draws(catalogue.counts(), 4, DrawRegime::WithRepetition, &mut rng).unwrap();
    assert_eq!(plan.iter().sum::<u64>(), 4);

    let mut sink = OutputSink::new();
    for (file, budget) in [&first, &second].into_iter().zip(plan.iter()) {
        if *budget == 0 {
            continue;
        }
        let indices = select_with_repetition(file.len() as u64, *budget, &mut rng);
        extract_records(file, indices, &mut sink);
    }
    assert_eq!(sink.record_count(), 4);

    let bytes = sink.take_buffered();
    let sources: Vec<Vec<u8>> =
        first.iter().chain(second.iter()).map(|r| r.sequence.clone()).collect();
    let mut reader = seq_io::fasta::Reader::new(bytes.as_slice());
    let mut seen = 0u64;
    while let Some(record) = reader.next() {
        let record = record.unwrap();
        assert_eq!(record.id().unwrap(), seen.to_string());
        let owned = record.to_owned_record();
        assert!(sources.contains(&owned.seq));
        seen += 1;
    }
    assert_eq!(seen, 4);
}

#[test]
fn sampling_without_repetition_rejects_excess() {
    // ten records requested from eight available: the plan fails before
    // anything is written
    let mut catalogue = Cataloguer::new();
    catalogue.register_counted_file(3, None).unwrap();
    catalogue.register_counted_file(5, None).unwrap();
    let mut rng = seeded_rng(42);
    let r = plan_draws(catalogue.counts(), 10, DrawRegime::WithoutRepetition, &mut rng);
    assert_eq!(r, Err(SampleError::InsufficientEntries));
    let mut sink = OutputSink::new();
    assert_eq!(sink.record_count(), 0);
    assert!(sink.take_buffered().is_empty());
}

#[test]
fn error_messages_are_nonempty() {
    for e in [
        SampleError::Overflow,
        SampleError::FormatMismatch,
        SampleError::InsufficientEntries,
        SampleError::WeightUpdate,
    ] {
        assert!(!e.message().is_empty());
    }
}
