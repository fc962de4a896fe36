//! Ranks under a strict total order on the positions `0..n` of a list: the
//! rank of a position is the number of positions that come before it.
use vstd::prelude::*;
use vstd::relations::injective_on;
use vstd::set_lib::{lemma_int_range, lemma_map_size, lemma_subset_equality, set_int_range};

verus! {

/// `before` orders the positions `0..n` strictly and totally.
pub open spec fn orders_positions(before: spec_fn(int, int) -> bool, n: int) -> bool {
    &&& forall|i: int| 0 <= i < n ==> !#[trigger] before(i, i)
    &&& forall|i: int, j: int|
        0 <= i < n && 0 <= j < n && i != j ==> #[trigger] before(i, j) || #[trigger] before(j, i)
    &&& forall|i: int, j: int, k: int|
        0 <= i < n && 0 <= j < n && 0 <= k < n && #[trigger] before(i, j) && #[trigger] before(j, k)
            ==> before(i, k)
}

/// The number of positions below `upto` that come before position `j`.
pub open spec fn count_before(before: spec_fn(int, int) -> bool, j: int, upto: int) -> int
    decreases upto,
{
    if upto <= 0 {
        0
    } else {
        count_before(before, j, upto - 1) + if before(upto - 1, j) {
            1int
        } else {
            0int
        }
    }
}

/// The rank of position `j` among `n` positions, counted from 0.
pub open spec fn rank_of(before: spec_fn(int, int) -> bool, n: int, j: int) -> int {
    count_before(before, j, n)
}

/// A count is never negative and never more than the positions looked at;
/// it is less where the position itself is among them.
pub proof fn lemma_count_bounds(before: spec_fn(int, int) -> bool, j: int, upto: int)
    requires
        0 <= upto,
    ensures
        0 <= count_before(before, j, upto) <= upto,
        0 <= j < upto && !before(j, j) ==> count_before(before, j, upto) < upto,
    decreases upto,
{
    if upto > 0 {
        lemma_count_bounds(before, j, upto - 1);
    }
}

/// What comes before `i` comes before whatever `i` comes before, and `i`
/// itself does: so the count of `i` is less as soon as `i` is looked at.
pub proof fn lemma_count_grows(
    before: spec_fn(int, int) -> bool,
    n: int,
    i: int,
    j: int,
    upto: int,
)
    requires
        orders_positions(before, n),
        0 <= i < n,
        0 <= j < n,
        before(i, j),
        0 <= upto <= n,
    ensures
        count_before(before, i, upto) <= count_before(before, j, upto),
        i < upto ==> count_before(before, i, upto) < count_before(before, j, upto),
    decreases upto,
{
    if upto > 0 {
        lemma_count_grows(before, n, i, j, upto - 1);
        let k = upto - 1;
        if before(k, i) {
            assert(before(k, j));
        }
        if k == i {
            assert(!before(i, i));
        }
    }
}

/// Ranks follow the order.
pub proof fn lemma_rank_follows_order(before: spec_fn(int, int) -> bool, n: int, i: int, j: int)
    requires
        orders_positions(before, n),
        0 <= i < n,
        0 <= j < n,
        before(i, j),
    ensures
        rank_of(before, n, i) < rank_of(before, n, j),
{
    lemma_count_grows(before, n, i, j, n);
}

/// Every rank is one of `0..n`, and no two positions share one.
pub proof fn lemma_ranks_distinct(before: spec_fn(int, int) -> bool, n: int)
    requires
        orders_positions(before, n),
    ensures
        forall|j: int| 0 <= j < n ==> 0 <= #[trigger] rank_of(before, n, j) < n,
        forall|i: int, j: int|
            0 <= i < n && 0 <= j < n && i != j ==> #[trigger] rank_of(before, n, i)
                != #[trigger] rank_of(before, n, j),
{
    assert forall|j: int| 0 <= j < n implies 0 <= #[trigger] rank_of(before, n, j) < n by {
        lemma_count_bounds(before, j, n);
    }
    assert forall|i: int, j: int| 0 <= i < n && 0 <= j < n && i != j implies #[trigger] rank_of(
        before,
        n,
        i,
    ) != #[trigger] rank_of(before, n, j) by {
        if before(i, j) {
            lemma_rank_follows_order(before, n, i, j);
        } else {
            assert(before(j, i));
            lemma_rank_follows_order(before, n, j, i);
        }
    }
}

/// Some position among `n` has the rank `r`.
pub open spec fn is_rank(before: spec_fn(int, int) -> bool, n: int, r: int) -> bool {
    exists|j: int| 0 <= j < n && #[trigger] rank_of(before, n, j) == r
}

/// Every one of `0..n` is the rank of some position: the ranks have no gap.
pub proof fn lemma_ranks_onto(before: spec_fn(int, int) -> bool, n: int)
    requires
        orders_positions(before, n),
        0 <= n,
    ensures
        forall|r: int| 0 <= r < n ==> #[trigger] is_rank(before, n, r),
{
    lemma_ranks_distinct(before, n);
    let positions = set_int_range(0, n);
    let rank = |j: int| rank_of(before, n, j);
    let ranks = positions.map(rank);
    lemma_int_range(0, n);
    assert(injective_on(rank, positions));
    lemma_map_size(positions, ranks, rank);
    assert forall|r: int| ranks.contains(r) implies positions.contains(r) by {
        let j = choose|j: int| positions.contains(j) && r == rank(j);
        assert(0 <= rank_of(before, n, j) < n);
    }
    assert(ranks.subset_of(positions));
    lemma_subset_equality(ranks, positions);
    assert forall|r: int| 0 <= r < n implies #[trigger] is_rank(before, n, r) by {
        assert(positions.contains(r));
        assert(ranks.contains(r));
        let j = choose|j: int| positions.contains(j) && r == rank(j);
        assert(0 <= j < n && rank_of(before, n, j) == r);
    }
}

/// Two orders that agree on `0..n` give the same counts.
pub proof fn lemma_same_order_same_count(
    first: spec_fn(int, int) -> bool,
    second: spec_fn(int, int) -> bool,
    n: int,
    j: int,
    upto: int,
)
    requires
        0 <= j < n,
        0 <= upto <= n,
        forall|i: int, k: int| 0 <= i < n && 0 <= k < n ==> #[trigger] first(i, k) == second(i, k),
    ensures
        count_before(first, j, upto) == count_before(second, j, upto),
    decreases upto,
{
    if upto > 0 {
        lemma_same_order_same_count(first, second, n, j, upto - 1);
        assert(first(upto - 1, j) == second(upto - 1, j));
    }
}

} // verus!
