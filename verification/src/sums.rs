//! Order-independent sums of per-source contributions.
//!
//! Field and force aggregation must compose by an associative,
//! commutative merge: the sampled total may not depend on the order in
//! which the sources are visited. Over fixed-point integers the merge is
//! plain addition, and the lemmas here show that any permutation of the
//! source sequence yields exactly the same sum.

use vstd::prelude::*;

verus! {

/// Component-wise sum of two integer triples.
pub open spec fn t_add(a: (int, int, int), b: (int, int, int)) -> (int, int, int) {
    (a.0 + b.0, a.1 + b.1, a.2 + b.2)
}

/// Sum of the contribution `f` over a sequence of sources.
pub open spec fn sum_contributions<T>(s: Seq<T>, f: spec_fn(T) -> (int, int, int)) -> (
    int,
    int,
    int,
)
    decreases s.len(),
{
    if s.len() == 0 {
        (0, 0, 0)
    } else {
        t_add(sum_contributions(s.drop_last(), f), f(s.last()))
    }
}

/// Removing one source removes exactly its contribution from the sum.
pub proof fn lemma_sum_remove<T>(s: Seq<T>, f: spec_fn(T) -> (int, int, int), j: int)
    requires
        0 <= j < s.len(),
    ensures
        sum_contributions(s, f) == t_add(sum_contributions(s.remove(j), f), f(s[j])),
    decreases s.len(),
{
    if j == s.len() - 1 {
        assert(s.remove(j) =~= s.drop_last());
    } else {
        let sdl = s.drop_last();
        assert(s.remove(j).drop_last() =~= sdl.remove(j));
        assert(s.remove(j).last() == s.last());
        lemma_sum_remove(sdl, f, j);
    }
}

/// Law: two sequences of sources that are permutations of one another
/// have exactly the same summed contribution, whatever the contribution
/// function is. Order-independent aggregation is exact here, not merely
/// up to round-off, because the lattice values are integers.
pub proof fn lemma_sum_permutation<T>(
    s1: Seq<T>,
    s2: Seq<T>,
    f: spec_fn(T) -> (int, int, int),
)
    requires
        s1.to_multiset() == s2.to_multiset(),
    ensures
        sum_contributions(s1, f) == sum_contributions(s2, f),
    decreases s1.len(),
{
    broadcast use vstd::seq_lib::group_to_multiset_ensures;

    if s1.len() == 0 {
        assert(s2.to_multiset().len() == 0);
    } else {
        let x = s1.last();
        assert(s1[s1.len() - 1] == x);
        assert(s1.contains(x));
        assert(s1.to_multiset().count(x) > 0);
        assert(s2.to_multiset().count(x) > 0);
        assert(s2.contains(x));
        let j = choose|j: int| 0 <= j < s2.len() && s2[j] == x;
        lemma_sum_remove(s2, f, j);
        assert(s1.drop_last() =~= s1.remove(s1.len() - 1));
        assert(s1.remove(s1.len() - 1).to_multiset() =~= s1.to_multiset().remove(x));
        assert(s2.remove(j).to_multiset() =~= s2.to_multiset().remove(x));
        lemma_sum_permutation(s1.drop_last(), s2.remove(j), f);
    }
}

} // verus!
