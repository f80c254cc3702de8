//! Sums over sequences of counters, and the lemmas the planner needs.

use vstd::prelude::*;

verus! {

/// The mathematical sum of a sequence of counters.
pub open spec fn sum_seq(s: Seq<u64>) -> int
    decreases s.len(),
{
    if s.len() == 0 {
        0
    } else {
        sum_seq(s.drop_last()) + s.last()
    }
}

/// A sum of unsigned counters is never negative.
pub proof fn lemma_sum_nonneg(s: Seq<u64>)
    ensures
        sum_seq(s) >= 0,
    decreases s.len(),
{
    if s.len() > 0 {
        lemma_sum_nonneg(s.drop_last());
    }
}

/// Appending one counter adds its value to the sum.
pub proof fn lemma_sum_push(s: Seq<u64>, v: u64)
    ensures
        sum_seq(s.push(v)) == sum_seq(s) + v,
{
    assert(s.push(v).drop_last() =~= s);
}

/// Every counter is bounded by the sum of its sequence.
pub proof fn lemma_sum_bounds_element(s: Seq<u64>, i: int)
    requires
        0 <= i < s.len(),
    ensures
        s[i] <= sum_seq(s),
    decreases s.len(),
{
    lemma_sum_nonneg(s.drop_last());
    if i == s.len() - 1 {
        assert(s[i] == s.last());
    } else {
        lemma_sum_bounds_element(s.drop_last(), i);
    }
}

/// Replacing one counter shifts the sum by the difference.
pub proof fn lemma_sum_update(s: Seq<u64>, i: int, v: u64)
    requires
        0 <= i < s.len(),
    ensures
        sum_seq(s.update(i, v)) == sum_seq(s) - s[i] + v,
    decreases s.len(),
{
    if i == s.len() - 1 {
        assert(s.update(i, v).drop_last() =~= s.drop_last());
        assert(s.update(i, v).last() == v);
    } else {
        assert(s.update(i, v).drop_last() =~= s.drop_last().update(i, v));
        assert(s.update(i, v).last() == s.last());
        lemma_sum_update(s.drop_last(), i, v);
    }
}

} // verus!
