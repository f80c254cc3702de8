use fastx_sample::rand_ext::seeded_rng;
use fastx_sample::selector::{identity_indices, select_with_repetition, select_without_repetition, sort_indices};

#[test]
fn identity_is_every_index_in_order() {
    assert_eq!(identity_indices(4), vec![0, 1, 2, 3]);
    assert_eq!(identity_indices(0), Vec::<u64>::new());
}

#[test]
fn sorting_keeps_values() {
    assert_eq!(sort_indices(vec![3, 1, 2, 1]), vec![1, 1, 2, 3]);
    assert_eq!(sort_indices(Vec::new()), Vec::<u64>::new());
}

#[test]
fn with_repetition_draws_sorted_in_range() {
    let mut rng = seeded_rng(21);
    let picks = select_with_repetition(3, 10, &mut rng);
    assert_eq!(picks.len(), 10);
    for w in picks.windows(2) {
        assert!(w[0] <= w[1]);
    }
    for p in &picks {
        assert!(*p < 3);
    }
    // ten draws over three values must repeat one of them
    assert!(picks.windows(2).any(|w| w[0] == w[1]));
}

#[test]
fn without_repetition_draws_distinct_sorted_in_range() {
    let mut rng = seeded_rng(23);
    let picks = select_without_repetition(10, 4, &mut rng);
    assert_eq!(picks.len(), 4);
    for w in picks.windows(2) {
        assert!(w[0] < w[1]);
    }
    for p in &picks {
        assert!(*p < 10);
    }
}

#[test]
fn without_repetition_full_budget_is_identity() {
    let mut rng = seeded_rng(25);
    let picks = select_without_repetition(5, 5, &mut rng);
    assert_eq!(picks, vec![0, 1, 2, 3, 4]);
}
