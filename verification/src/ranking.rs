//! Ranking by value: the positions of a list of values, the largest value
//! first, equal values in the order in which they stand in the list.

use vstd::prelude::*;

verus! {

/// The position `a` comes before the position `b`: its value is larger, or
/// the values are equal and it stands earlier.
pub open spec fn ranks_before(values: Seq<i64>, a: int, b: int) -> bool {
    values[a] > values[b] || (values[a] == values[b] && a < b)
}

/// `order` names the position somewhere.
pub open spec fn lists(order: Seq<usize>, position: int) -> bool {
    exists|i: int| 0 <= i < order.len() && #[trigger] order[i] == position
}

/// `order` lists every position of `values` once, each before all that it
/// ranks before.
pub open spec fn is_ranking(values: Seq<i64>, order: Seq<usize>) -> bool {
    &&& order.len() == values.len()
    &&& forall|i: int| 0 <= i < order.len() ==> 0 <= #[trigger] order[i] < values.len()
    &&& forall|i: int, j: int|
        0 <= i < j < order.len() ==> ranks_before(
            values,
            #[trigger] order[i] as int,
            #[trigger] order[j] as int,
        )
    &&& forall|position: int|
        0 <= position < values.len() ==> #[trigger] lists(order, position)
}

/// The ranking of a list of values.
pub open spec fn ranking_of(values: Seq<i64>) -> Seq<usize> {
    choose|order: Seq<usize>| is_ranking(values, order)
}

/// A list of values has one ranking only.
pub proof fn lemma_ranking_unique(values: Seq<i64>, a: Seq<usize>, b: Seq<usize>)
    requires
        is_ranking(values, a),
        is_ranking(values, b),
    ensures
        a == b,
{
    assert forall|i: int| 0 <= i < a.len() implies a[i] == b[i] by {
        lemma_ranking_agrees(values, a, b, i);
    }
    assert(a =~= b);
}

proof fn lemma_ranking_agrees(values: Seq<i64>, a: Seq<usize>, b: Seq<usize>, i: int)
    requires
        is_ranking(values, a),
        is_ranking(values, b),
        0 <= i < a.len(),
    ensures
        a[i] == b[i],
    decreases i,
{
    assert forall|k: int| 0 <= k < i implies a[k] == b[k] by {
        lemma_ranking_agrees(values, a, b, k);
    }
    let x = a[i] as int;
    let y = b[i] as int;
    assert(lists(b, x));
    assert(lists(a, y));
    let q = choose|q: int| 0 <= q < b.len() && #[trigger] b[q] == x;
    let p = choose|p: int| 0 <= p < a.len() && #[trigger] a[p] == y;
    if q < i {
        // x stands at q in both, and again at i in a
        assert(a[q] == b[q]);
        assert(ranks_before(values, a[q] as int, a[i] as int));
    } else if p < i {
        assert(a[p] == b[p]);
        assert(ranks_before(values, b[p] as int, b[i] as int));
    } else if q > i && p > i {
        assert(ranks_before(values, b[i] as int, b[q] as int));
        assert(ranks_before(values, a[i] as int, a[p] as int));
    }
}

/// The ranking of a list is the one order that ranks it.
pub proof fn lemma_ranking_of(values: Seq<i64>, order: Seq<usize>)
    requires
        is_ranking(values, order),
    ensures
        ranking_of(values) == order,
{
    lemma_ranking_unique(values, ranking_of(values), order);
}

/// Ranks the positions of `values`: the largest value first, equal values in
/// the order in which they stand.
pub fn rank_descending(values: &Vec<i64>) -> (order: Vec<usize>)
    ensures
        is_ranking(values@, order@),
        order@ == ranking_of(values@),
{
    let mut order: Vec<usize> = Vec::new();
    let mut i: usize = 0;
    assert(values@.take(0) =~= Seq::<i64>::empty());
    while i < values.len()
        invariant
            i <= values@.len(),
            is_ranking(values@.take(i as int), order@),
        decreases values@.len() - i,
    {
        let value = values[i];
        let mut at: usize = 0;
        while at < order.len() && values[order[at]] >= value
            invariant
                at <= order@.len(),
                i < values@.len(),
                value == values@[i as int],
                is_ranking(values@.take(i as int), order@),
                forall|k: int| 0 <= k < at ==> values@[#[trigger] order@[k] as int] >= value,
            decreases order@.len() - at,
        {
            at = at + 1;
        }
        let ghost before = order@;
        let ghost ranked = values@.take(i as int);
        let ghost grown = values@.take(i + 1);
        order.insert(at, i);
        proof {
            let after = order@;
            assert(after == before.insert(at as int, i));
            assert forall|k: int| 0 <= k < after.len() implies 0 <= #[trigger] after[k]
                < grown.len() by {
                if k < at {
                    assert(after[k] == before[k]);
                } else if k > at {
                    assert(after[k] == before[k - 1]);
                }
            }
            assert forall|a: int, b: int| 0 <= a < b < after.len() implies ranks_before(
                grown,
                #[trigger] after[a] as int,
                #[trigger] after[b] as int,
            ) by {
                // where a and b stood before the insertion
                let old_a = if a < at {
                    a
                } else {
                    a - 1
                };
                let old_b = if b < at {
                    b
                } else {
                    b - 1
                };
                if a != at && b != at {
                    assert(after[a] == before[old_a] && after[b] == before[old_b]);
                    assert(ranks_before(ranked, before[old_a] as int, before[old_b] as int));
                } else if b == at {
                    assert(after[a] == before[a]);
                    assert(values@[before[a] as int] >= value);
                } else {
                    assert(after[b] == before[b - 1]);
                    assert(values@[before[at as int] as int] < value);
                    if b - 1 > at {
                        assert(ranks_before(
                            ranked,
                            before[at as int] as int,
                            before[b - 1] as int,
                        ));
                    }
                }
            }
            assert forall|position: int| 0 <= position < grown.len() implies #[trigger] lists(
                after,
                position,
            ) by {
                if position == i {
                    assert(after[at as int] == position);
                } else {
                    assert(lists(before, position));
                    let k = choose|k: int| 0 <= k < before.len() && #[trigger] before[k] == position;
                    if k < at {
                        assert(after[k] == position);
                    } else {
                        assert(after[k + 1] == position);
                    }
                }
            }
        }
        i = i + 1;
    }
    proof {
        assert(values@.take(i as int) =~= values@);
        lemma_ranking_of(values@, order@);
    }
    order
}

} // verus!
