//! The draw planner: allocates a requested total number of draws across the
//! input files, weighted by record count, in one of two regimes.

use vstd::prelude::*;
use crate::errors::SampleError;
use crate::numeric::{sum_seq, lemma_sum_push, lemma_sum_bounds_element, lemma_sum_update};
use crate::rand_ext::{WeightedU64Index, wi_weights, wi_new, wi_sample, wi_update_weight};

verus! {

/// A plan is valid for the with-repetition regime when it spreads exactly
/// `amount` draws over the files and gives an empty file nothing.
pub open spec fn valid_plan_with_repetition(counts: Seq<u64>, amount: u64, plan: Seq<u64>) -> bool {
    &&& plan.len() == counts.len()
    &&& sum_seq(plan) == amount
    &&& forall|i: int| 0 <= i < counts.len() && counts[i] == 0 ==> plan[i] == 0
}

/// A plan is valid for the without-repetition regime when it spreads exactly
/// `amount` draws over the files and no file is asked for more records than
/// it holds.
pub open spec fn valid_plan_without_repetition(
    counts: Seq<u64>,
    amount: u64,
    plan: Seq<u64>,
) -> bool {
    &&& plan.len() == counts.len()
    &&& sum_seq(plan) == amount
    &&& forall|i: int| 0 <= i < counts.len() ==> plan[i] <= counts[i]
}

/// Which sampling regime the caller selected, fixed once at planning time.
#[derive(Clone, Copy, Debug, PartialEq, Eq, Structural)]
pub enum DrawRegime {
    /// Every draw sees the full counts: a record may be drawn repeatedly.
    WithRepetition,
    /// Each draw consumes one record: the plan never exceeds a file's
    /// count.
    WithoutRepetition,
}

/// Plans the draws under the selected regime; both regimes meet the same
/// `(counts, amount) -> per-file tallies` contract, with the regime's own
/// validity guarantee and failure condition.
pub fn plan_draws(
    counts: &Vec<u64>,
    amount: u64,
    regime: DrawRegime,
    rng: &mut rand_xoshiro::Xoshiro512PlusPlus,
) -> (r: Result<Vec<u64>, SampleError>)
    ensures
        r matches Ok(plan) ==> sum_seq(plan@) == amount && plan@.len() == counts@.len(),
        regime is WithRepetition ==> {
            &&& (r matches Ok(plan) ==> valid_plan_with_repetition(counts@, amount, plan@))
            &&& (r is Ok <==> (sum_seq(counts@) <= u64::MAX && (amount == 0 || sum_seq(counts@)
                > 0)))
        },
        regime is WithoutRepetition ==> {
            &&& (r matches Ok(plan) ==> valid_plan_without_repetition(counts@, amount, plan@))
            &&& (r is Ok <==> (sum_seq(counts@) <= u64::MAX && amount <= sum_seq(counts@)))
        },
        r is Err ==> r == Err::<Vec<u64>, SampleError>(
            if sum_seq(counts@) > u64::MAX {
                SampleError::Overflow
            } else {
                SampleError::InsufficientEntries
            },
        ),
{
    match regime {
        DrawRegime::WithRepetition => plan_with_repetition(counts, amount, rng),
        DrawRegime::WithoutRepetition => plan_without_repetition(counts, amount, rng),
    }
}

/// Sums the per-file counts, or reports that the total does not fit the
/// counter.
pub fn total_entries(counts: &Vec<u64>) -> (r: Result<u64, SampleError>)
    ensures
        r matches Ok(t) ==> t == sum_seq(counts@),
        r is Ok <==> sum_seq(counts@) <= u64::MAX,
        r is Err ==> r == Err::<u64, SampleError>(SampleError::Overflow),
{
    let mut total: u64 = 0;
    let mut i: usize = 0;
    proof {
        assert(counts@.take(0) =~= Seq::<u64>::empty());
    }
    while i < counts.len()
        invariant
            i <= counts@.len(),
            total == sum_seq(counts@.take(i as int)),
        decreases counts@.len() - i,
    {
        proof {
            lemma_sum_push(counts@.take(i as int), counts@[i as int]);
            assert(counts@.take(i as int).push(counts@[i as int]) =~= counts@.take(i + 1));
        }
        let c = counts[i];
        match total.checked_add(c) {
            Some(t) => {
                total = t;
            },
            None => {
                proof {
                    lemma_sum_take_le(counts@, i + 1);
                }
                return Err(SampleError::Overflow);
            },
        }
        i += 1;
    }
    proof {
        assert(counts@.take(counts@.len() as int) =~= counts@);
    }
    Ok(total)
}

/// A prefix sum of unsigned counters never exceeds the whole sum.
proof fn lemma_sum_take_le(s: Seq<u64>, i: int)
    requires
        0 <= i <= s.len(),
    ensures
        sum_seq(s.take(i)) <= sum_seq(s),
    decreases s.len() - i,
{
    if i < s.len() {
        lemma_sum_push(s.take(i), s[i]);
        assert(s.take(i).push(s[i]) =~= s.take(i + 1));
        lemma_sum_take_le(s, i + 1);
    } else {
        assert(s.take(i) =~= s);
    }
}

/// Spreads `amount` independent draws over the files, each draw choosing a
/// file with probability proportional to its record count. Succeeds exactly
/// when the counts can be summed and, if any draw is requested, some file
/// has a record.
pub fn plan_with_repetition(
    counts: &Vec<u64>,
    amount: u64,
    rng: &mut rand_xoshiro::Xoshiro512PlusPlus,
) -> (r: Result<Vec<u64>, SampleError>)
    ensures
        r matches Ok(plan) ==> valid_plan_with_repetition(counts@, amount, plan@),
        r is Ok <==> (sum_seq(counts@) <= u64::MAX && (amount == 0 || sum_seq(counts@) > 0)),
        r is Err ==> r == Err::<Vec<u64>, SampleError>(
            if sum_seq(counts@) > u64::MAX {
                SampleError::Overflow
            } else {
                SampleError::InsufficientEntries
            },
        ),
{
    let total = match total_entries(counts) {
        Ok(t) => t,
        Err(e) => {
            return Err(e);
        },
    };
    let mut plan = zero_plan(counts.len());
    if amount == 0 {
        return Ok(plan);
    }
    if total == 0 {
        return Err(SampleError::InsufficientEntries);
    }
    proof {
        if counts@.len() == 0 {
            assert(sum_seq(counts@) == 0);
        }
    }
    let dist = match wi_new(counts) {
        Ok(d) => d,
        Err(_) => {
            return Err(SampleError::WeightUpdate);
        },
    };
    let mut j: u64 = 0;
    while j < amount
        invariant
            j <= amount,
            wi_weights(dist) == counts@,
            plan@.len() == counts@.len(),
            sum_seq(plan@) == j,
            forall|i: int| 0 <= i < counts@.len() && counts@[i] == 0 ==> plan@[i] == 0,
        decreases amount - j,
    {
        let i = wi_sample(&dist, rng);
        proof {
            lemma_sum_bounds_element(plan@, i as int);
        }
        let ghost p0 = plan@;
        let tally = plan[i];
        plan.set(i, tally + 1);
        proof {
            lemma_sum_update(p0, i as int, (tally + 1) as u64);
        }
        j += 1;
    }
    Ok(plan)
}

/// Spreads `amount` draws over the files without repetition: each draw
/// chooses a file with probability proportional to its count of records not
/// yet drawn, and that count then shrinks by one before the next draw, so
/// the tallies follow the multivariate hypergeometric distribution.
/// Succeeds exactly when the counts can be summed and `amount` does not
/// exceed their total; it never silently clips the request.
pub fn plan_without_repetition(
    counts: &Vec<u64>,
    amount: u64,
    rng: &mut rand_xoshiro::Xoshiro512PlusPlus,
) -> (r: Result<Vec<u64>, SampleError>)
    ensures
        r matches Ok(plan) ==> valid_plan_without_repetition(counts@, amount, plan@),
        r is Ok <==> (sum_seq(counts@) <= u64::MAX && amount <= sum_seq(counts@)),
        r is Err ==> r == Err::<Vec<u64>, SampleError>(
            if sum_seq(counts@) > u64::MAX {
                SampleError::Overflow
            } else {
                SampleError::InsufficientEntries
            },
        ),
{
    let total = match total_entries(counts) {
        Ok(t) => t,
        Err(e) => {
            return Err(e);
        },
    };
    if amount > total {
        return Err(SampleError::InsufficientEntries);
    }
    let mut plan = zero_plan(counts.len());
    if amount == 0 {
        return Ok(plan);
    }
    proof {
        if counts@.len() == 0 {
            assert(sum_seq(counts@) == 0);
        }
    }
    let mut remaining = copy_counts(counts);
    let mut dist = match wi_new(counts) {
        Ok(d) => d,
        Err(_) => {
            return Err(SampleError::WeightUpdate);
        },
    };
    let mut j: u64 = 0;
    while j < amount
        invariant
            j <= amount,
            amount <= total,
            total == sum_seq(counts@),
            remaining@.len() == counts@.len(),
            plan@.len() == counts@.len(),
            sum_seq(plan@) == j,
            sum_seq(remaining@) == total - j,
            forall|i: int| 0 <= i < counts@.len()
                ==> plan@[i] + remaining@[i] == counts@[i],
            j < amount ==> wi_weights(dist) == remaining@,
        decreases amount - j,
    {
        let i = wi_sample(&dist, rng);
        let ghost p0 = plan@;
        let ghost r0 = remaining@;
        let tally = plan[i];
        let rem = remaining[i];
        proof {
            assert(plan@[i as int] + remaining@[i as int] == counts@[i as int]);
            assert(remaining@[i as int] > 0);
        }
        plan.set(i, tally + 1);
        remaining.set(i, rem - 1);
        proof {
            lemma_sum_update(p0, i as int, (tally + 1) as u64);
            lemma_sum_update(r0, i as int, (rem - 1) as u64);
        }
        j += 1;
        if j < amount {
            let res = wi_update_weight(&mut dist, i, rem - 1);
            match res {
                Ok(_) => {
                },
                Err(_) => {
                    return Err(SampleError::WeightUpdate);
                },
            }
        }
    }
    Ok(plan)
}

/// One tally for each file, copied so the urn draws can shrink them.
fn copy_counts(counts: &Vec<u64>) -> (r: Vec<u64>)
    ensures
        r@ == counts@,
{
    let mut r: Vec<u64> = Vec::new();
    let mut i: usize = 0;
    while i < counts.len()
        invariant
            i <= counts@.len(),
            r@ =~= counts@.take(i as int),
        decreases counts@.len() - i,
    {
        r.push(counts[i]);
        proof {
            assert(counts@.take(i as int).push(counts@[i as int]) =~= counts@.take(i + 1));
        }
        i += 1;
    }
    proof {
        assert(counts@.take(counts@.len() as int) =~= counts@);
    }
    r
}

/// A plan of zeroes, one per file.
fn zero_plan(n: usize) -> (plan: Vec<u64>)
    ensures
        plan@.len() == n,
        sum_seq(plan@) == 0,
        forall|i: int| 0 <= i < n ==> plan@[i] == 0,
{
    let mut plan: Vec<u64> = Vec::new();
    let mut i: usize = 0;
    while i < n
        invariant
            i <= n,
            plan@.len() == i,
            sum_seq(plan@) == 0,
            forall|k: int| 0 <= k < i ==> plan@[k] == 0,
        decreases n - i,
    {
        proof {
            lemma_sum_push(plan@, 0);
        }
        plan.push(0);
        i += 1;
    }
    plan
}

} // verus!
