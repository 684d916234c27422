//! Sums over the members of a population that a predicate keeps. Such a sum
//! does not depend on the order in which the members are visited.
use vstd::prelude::*;

verus! {

/// The sum of `term(i)` over the `i` in `0..n` that `keep` holds of.
pub open spec fn sum_where(n: int, keep: spec_fn(int) -> bool, term: spec_fn(int) -> int) -> int
    decreases n,
{
    if n <= 0 {
        0
    } else {
        sum_where(n - 1, keep, term) + if keep(n - 1) {
            term(n - 1)
        } else {
            0
        }
    }
}

/// The number of `i` in `0..n` that `keep` holds of.
pub open spec fn count_where(n: int, keep: spec_fn(int) -> bool) -> int
    decreases n,
{
    if n <= 0 {
        0
    } else {
        count_where(n - 1, keep) + if keep(n - 1) {
            1int
        } else {
            0int
        }
    }
}

/// Sums over predicates and terms that agree on `0..n` are equal.
pub proof fn lemma_sum_where_ext(
    n: int,
    keep1: spec_fn(int) -> bool,
    keep2: spec_fn(int) -> bool,
    term1: spec_fn(int) -> int,
    term2: spec_fn(int) -> int,
)
    requires
        forall|i: int| 0 <= i < n ==> #[trigger] keep1(i) == keep2(i),
        forall|i: int| 0 <= i < n && keep1(i) ==> #[trigger] term1(i) == term2(i),
    ensures
        sum_where(n, keep1, term1) == sum_where(n, keep2, term2),
        count_where(n, keep1) == count_where(n, keep2),
    decreases n,
{
    if n > 0 {
        lemma_sum_where_ext(n - 1, keep1, keep2, term1, term2);
    }
}

/// Keeping one member more adds that member's term.
pub proof fn lemma_sum_where_add(
    n: int,
    keep1: spec_fn(int) -> bool,
    keep2: spec_fn(int) -> bool,
    term: spec_fn(int) -> int,
    e: int,
)
    requires
        0 <= e < n,
        !keep1(e),
        forall|i: int| 0 <= i < n ==> #[trigger] keep2(i) == (keep1(i) || i == e),
    ensures
        sum_where(n, keep2, term) == sum_where(n, keep1, term) + term(e),
        count_where(n, keep2) == count_where(n, keep1) + 1,
    decreases n,
{
    if n - 1 == e {
        lemma_sum_where_ext(n - 1, keep1, keep2, term, term);
    } else {
        lemma_sum_where_add(n - 1, keep1, keep2, term, e);
    }
}

/// At most `n` of the members in `0..n` are kept.
pub proof fn lemma_count_where_bound(n: int, keep: spec_fn(int) -> bool)
    requires
        n >= 0,
    ensures
        0 <= count_where(n, keep) <= n,
    decreases n,
{
    if n > 0 {
        lemma_count_where_bound(n - 1, keep);
    }
}

/// A sum that keeps nothing is zero.
pub proof fn lemma_sum_where_none(n: int, keep: spec_fn(int) -> bool, term: spec_fn(int) -> int)
    requires
        forall|i: int| 0 <= i < n ==> !#[trigger] keep(i),
    ensures
        sum_where(n, keep, term) == 0,
        count_where(n, keep) == 0,
    decreases n,
{
    if n > 0 {
        lemma_sum_where_none(n - 1, keep, term);
    }
}

/// Membership in the first `upto` entries of `list`, leaving `me` out.
pub open spec fn listed(list: Seq<usize>, upto: int, me: int) -> spec_fn(int) -> bool {
    |i: int| 0 <= i <= usize::MAX && list.take(upto).contains(i as usize) && i != me
}

} // verus!
