use fastx_sample::errors::SampleError;
use fastx_sample::planner::{plan_draws, plan_with_repetition, plan_without_repetition, total_entries, DrawRegime};
use fastx_sample::rand_ext::seeded_rng;

#[test]
fn total_entries_sums() {
    assert_eq!(total_entries(&vec![3, 5]), Ok(8));
    assert_eq!(total_entries(&vec![]), Ok(0));
    assert_eq!(total_entries(&vec![u64::MAX, 1]), Err(SampleError::Overflow));
}

#[test]
fn with_repetition_sums_to_amount() {
    let mut rng = seeded_rng(7);
    let plan = plan_with_repetition(&vec![3, 5], 4, &mut rng).unwrap();
    assert_eq!(plan.len(), 2);
    assert_eq!(plan.iter().sum::<u64>(), 4);
}

#[test]
fn with_repetition_skips_empty_files() {
    let mut rng = seeded_rng(11);
    let plan = plan_with_repetition(&vec![0, 5, 0], 6, &mut rng).unwrap();
    assert_eq!(plan[0], 0);
    assert_eq!(plan[2], 0);
    assert_eq!(plan[1], 6);
}

#[test]
fn with_repetition_zero_amount() {
    let mut rng = seeded_rng(1);
    let plan = plan_with_repetition(&vec![0, 0], 0, &mut rng).unwrap();
    assert_eq!(plan, vec![0, 0]);
}

#[test]
fn with_repetition_no_records_fails() {
    let mut rng = seeded_rng(1);
    let r = plan_with_repetition(&vec![0, 0], 1, &mut rng);
    assert_eq!(r, Err(SampleError::InsufficientEntries));
}

#[test]
fn without_repetition_exact_budget_takes_everything() {
    let mut rng = seeded_rng(3);
    let plan = plan_without_repetition(&vec![3, 5], 8, &mut rng).unwrap();
    assert_eq!(plan, vec![3, 5]);
}

#[test]
fn without_repetition_respects_per_file_counts() {
    let mut rng = seeded_rng(5);
    let counts = vec![3u64, 5, 2];
    let plan = plan_without_repetition(&counts, 6, &mut rng).unwrap();
    assert_eq!(plan.iter().sum::<u64>(), 6);
    for (p, c) in plan.iter().zip(counts.iter()) {
        assert!(p <= c);
    }
}

#[test]
fn without_repetition_insufficient_entries() {
    let mut rng = seeded_rng(9);
    let r = plan_without_repetition(&vec![3, 5], 10, &mut rng);
    assert_eq!(r, Err(SampleError::InsufficientEntries));
}

#[test]
fn without_repetition_overflowing_counts() {
    let mut rng = seeded_rng(9);
    let r = plan_without_repetition(&vec![u64::MAX, 2], 1, &mut rng);
    assert_eq!(r, Err(SampleError::Overflow));
}

#[test]
fn regimes_dispatch() {
    let mut rng = seeded_rng(13);
    let a = plan_draws(&vec![2, 2], 4, DrawRegime::WithoutRepetition, &mut rng).unwrap();
    assert_eq!(a, vec![2, 2]);
    let b = plan_draws(&vec![2, 2], 10, DrawRegime::WithRepetition, &mut rng).unwrap();
    assert_eq!(b.iter().sum::<u64>(), 10);
    let c = plan_draws(&vec![2, 2], 10, DrawRegime::WithoutRepetition, &mut rng);
    assert_eq!(c, Err(SampleError::InsufficientEntries));
}
