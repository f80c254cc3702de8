use fastx_sample::catalogue::Cataloguer;
use fastx_sample::errors::SampleError;
use fastx_sample::record::RecordFormat;

#[test]
fn counts_records_per_file() {
    let mut c = Cataloguer::new();
    for _ in 0..3 {
        c.count_record().unwrap();
    }
    c.finish_file(Some(RecordFormat::SequenceOnly)).unwrap();
    for _ in 0..5 {
        c.count_record().unwrap();
    }
    c.finish_file(Some(RecordFormat::SequenceOnly)).unwrap();
    assert_eq!(c.counts(), &vec![3, 5]);
    assert_eq!(c.total_count(), 8);
    assert_eq!(c.detected_format(), Some(RecordFormat::SequenceOnly));
}

#[test]
fn first_detected_format_establishes_expectation() {
    let mut c = Cataloguer::new();
    c.finish_file(None).unwrap();
    assert_eq!(c.detected_format(), None);
    c.finish_file(Some(RecordFormat::SequenceWithQuality)).unwrap();
    assert_eq!(c.detected_format(), Some(RecordFormat::SequenceWithQuality));
    c.finish_file(None).unwrap();
    assert_eq!(c.detected_format(), Some(RecordFormat::SequenceWithQuality));
}

#[test]
fn mismatched_formats_fail() {
    let mut c = Cataloguer::new();
    c.register_counted_file(2, Some(RecordFormat::SequenceOnly)).unwrap();
    let r = c.register_counted_file(1, Some(RecordFormat::SequenceWithQuality));
    assert_eq!(r, Err(SampleError::FormatMismatch));
    // the failed file was not recorded
    assert_eq!(c.counts(), &vec![2]);
}

#[test]
fn total_overflow_fails() {
    let mut c = Cataloguer::new();
    c.register_counted_file(u64::MAX, None).unwrap();
    let r = c.register_counted_file(1, None);
    assert_eq!(r, Err(SampleError::Overflow));
    assert_eq!(c.counts(), &vec![u64::MAX]);
    assert_eq!(c.total_count(), u64::MAX);
}

#[test]
fn bulk_and_stepwise_counting_agree() {
    let mut a = Cataloguer::new();
    a.register_counted_file(4, None).unwrap();
    let mut b = Cataloguer::new();
    for _ in 0..4 {
        b.count_record().unwrap();
    }
    b.finish_file(None).unwrap();
    assert_eq!(a.counts(), b.counts());
    assert_eq!(a.total_count(), b.total_count());
}
