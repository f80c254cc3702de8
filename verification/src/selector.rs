//! The index selector: turns one file's record count and draw budget into
//! the sorted sequence of record positions to extract.

use vstd::prelude::*;
use vstd::seq_lib::lemma_multiset_commutative;
use vstd::multiset::Multiset;
use crate::rand_ext::{draw_below, shuffle_indices};

verus! {

/// Every element is at most the ones after it; repeats are allowed.
pub open spec fn sorted_ascending(s: Seq<u64>) -> bool {
    forall|i: int, j: int| 0 <= i < j < s.len() ==> s[i] <= s[j]
}

/// Every element is strictly below the ones after it, so all are distinct.
pub open spec fn strictly_ascending(s: Seq<u64>) -> bool {
    forall|i: int, j: int| 0 <= i < j < s.len() ==> s[i] < s[j]
}

/// Every element lies in `[0, bound)`.
pub open spec fn all_below(s: Seq<u64>, bound: u64) -> bool {
    forall|i: int| 0 <= i < s.len() ==> s[i] < bound
}

/// Inserts one value into a sorted vector, keeping it sorted.
fn insert_sorted(out: &mut Vec<u64>, x: u64)
    requires
        sorted_ascending(old(out)@),
        old(out)@.len() < usize::MAX,
    ensures
        sorted_ascending(final(out)@),
        final(out)@.len() == old(out)@.len() + 1,
        final(out)@.to_multiset() == old(out)@.to_multiset().insert(x),
{
    let mut p: usize = 0;
    while p < out.len() && out[p] <= x
        invariant
            p <= out@.len(),
            forall|k: int| 0 <= k < p ==> out@[k] <= x,
            out@ == old(out)@,
        decreases out@.len() - p,
    {
        p += 1;
    }
    let ghost before = out@;
    out.insert(p, x);
    proof {
        broadcast use vstd::seq_lib::group_to_multiset_ensures;

        assert(out@ =~= before.take(p as int) + seq![x] + before.skip(p as int));
        lemma_multiset_commutative(before.take(p as int) + seq![x], before.skip(p as int));
        lemma_multiset_commutative(before.take(p as int), seq![x]);
        lemma_multiset_commutative(before.take(p as int), before.skip(p as int));
        assert(before.take(p as int) + before.skip(p as int) =~= before);
        assert(seq![x] =~= Seq::<u64>::empty().push(x));
        assert(seq![x].to_multiset() =~= Multiset::<u64>::empty().insert(x));
        assert(out@.to_multiset() =~= before.to_multiset().insert(x));
    }
}

/// Sorts the drawn positions ascending; the result holds exactly the same
/// values, repeats included.
pub fn sort_indices(v: Vec<u64>) -> (r: Vec<u64>)
    ensures
        sorted_ascending(r@),
        r@.len() == v@.len(),
        r@.to_multiset() == v@.to_multiset(),
{
    let mut out: Vec<u64> = Vec::new();
    let mut i: usize = 0;
    proof {
        broadcast use vstd::seq_lib::group_to_multiset_ensures;

        assert(v@.take(0) =~= Seq::<u64>::empty());
    }
    while i < v.len()
        invariant
            i <= v@.len(),
            out@.len() == i,
            sorted_ascending(out@),
            out@.to_multiset() == v@.take(i as int).to_multiset(),
        decreases v@.len() - i,
    {
        insert_sorted(&mut out, v[i]);
        proof {
            broadcast use vstd::seq_lib::group_to_multiset_ensures;

            assert(v@.take(i as int).push(v@[i as int]) =~= v@.take(i + 1));
        }
        i += 1;
    }
    proof {
        assert(v@.take(v@.len() as int) =~= v@);
    }
    out
}

/// The identity index sequence `0, 1, …, entry_count - 1`: what
/// concatenation mode extracts from a file.
pub fn identity_indices(entry_count: u64) -> (r: Vec<u64>)
    requires
        entry_count <= usize::MAX,
    ensures
        r@.len() == entry_count,
        forall|i: int| 0 <= i < r@.len() ==> r@[i] == i,
{
    let mut r: Vec<u64> = Vec::new();
    let mut i: u64 = 0;
    while i < entry_count
        invariant
            i <= entry_count,
            entry_count <= usize::MAX,
            r@.len() == i,
            forall|k: int| 0 <= k < r@.len() ==> r@[k] == k,
        decreases entry_count - i,
    {
        r.push(i);
        i += 1;
    }
    r
}

/// Draws `amount` positions uniformly from `[0, entry_count)` with
/// repetition and returns them sorted ascending; duplicates may occur.
pub fn select_with_repetition(
    entry_count: u64,
    amount: u64,
    rng: &mut rand_xoshiro::Xoshiro512PlusPlus,
) -> (r: Vec<u64>)
    requires
        entry_count > 0,
        amount <= usize::MAX,
    ensures
        r@.len() == amount,
        sorted_ascending(r@),
        all_below(r@, entry_count),
{
    let mut draws: Vec<u64> = Vec::new();
    let mut j: u64 = 0;
    while j < amount
        invariant
            j <= amount,
            amount <= usize::MAX,
            entry_count > 0,
            draws@.len() == j,
            all_below(draws@, entry_count),
        decreases amount - j,
    {
        let d = draw_below(rng, entry_count);
        draws.push(d);
        j += 1;
    }
    let r = sort_indices(draws);
    proof {
        lemma_multiset_range(draws@, r@, entry_count);
    }
    r
}

/// Draws `amount` distinct positions from `[0, entry_count)` by shuffling
/// the identity permutation, truncating, and sorting; the result is
/// strictly ascending. The cost is proportional to `entry_count` even for a
/// tiny `amount`; a partial shuffle would cut that, but this keeps the
/// full-shuffle behaviour.
pub fn select_without_repetition(
    entry_count: u64,
    amount: u64,
    rng: &mut rand_xoshiro::Xoshiro512PlusPlus,
) -> (r: Vec<u64>)
    requires
        amount <= entry_count,
        entry_count <= usize::MAX,
    ensures
        r@.len() == amount,
        strictly_ascending(r@),
        all_below(r@, entry_count),
{
    let mut ident = identity_indices(entry_count);
    proof {
        assert(ident@.no_duplicates());
    }
    let ghost ident0 = ident@;
    shuffle_indices(&mut ident, rng);
    proof {
        lemma_multiset_range(ident0, ident@, entry_count);
        lemma_multiset_no_duplicates(ident0, ident@);
    }
    let ghost shuffled = ident@;
    ident.truncate(amount as usize);
    proof {
        assert(ident@ =~= shuffled.take(amount as int));
        assert(ident@.no_duplicates());
    }
    let ghost cut = ident@;
    let r = sort_indices(ident);
    proof {
        lemma_multiset_range(cut, r@, entry_count);
        lemma_multiset_no_duplicates(cut, r@);
        assert forall|i: int, j: int| 0 <= i < j < r@.len() implies r@[i] < r@[j] by {
            assert(r@[i] <= r@[j]);
            assert(r@[i] != r@[j]);
        }
    }
    r
}

/// Two sequences over the same multiset stay inside the same bound.
proof fn lemma_multiset_range(a: Seq<u64>, b: Seq<u64>, bound: u64)
    requires
        a.to_multiset() == b.to_multiset(),
        all_below(a, bound),
    ensures
        all_below(b, bound),
{
    broadcast use vstd::seq_lib::group_to_multiset_ensures;

    assert forall|i: int| 0 <= i < b.len() implies b[i] < bound by {
        assert(b.contains(b[i]));
        assert(b.to_multiset().count(b[i]) > 0);
        assert(a.contains(b[i]));
    }
}

/// Two sequences over the same multiset are together free of duplicates.
proof fn lemma_multiset_no_duplicates(a: Seq<u64>, b: Seq<u64>)
    requires
        a.to_multiset() == b.to_multiset(),
        a.no_duplicates(),
    ensures
        b.no_duplicates(),
{
    a.lemma_multiset_has_no_duplicates();
    b.lemma_multiset_has_no_duplicates_conv();
}

} // verus!
