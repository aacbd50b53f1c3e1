//! Ranking of scored entries: best score first, and of two entries with the
//! same score the one that stands earlier first.

use vstd::prelude::*;
use crate::score::Score;

verus! {

/// The ranks of a sequence of scores, position by position.
pub open spec fn ranks_of(scores: Seq<Score>) -> Seq<int> {
    Seq::new(scores.len(), |i: int| scores[i].rank())
}

/// Whether position `a` comes before position `b` in the ranking: its rank is
/// higher, or the ranks are equal and `a` is the earlier position.
pub open spec fn precedes(ranks: Seq<int>, a: int, b: int) -> bool {
    ranks[a] > ranks[b] || (ranks[a] == ranks[b] && a < b)
}

/// The smaller of two lengths.
pub open spec fn at_most(k: nat, n: nat) -> nat {
    if k <= n {
        k
    } else {
        n
    }
}

/// Whether `order` lists the first `k` positions of `ranks` in ranking order
/// (all of them when there are fewer than `k`): every listed position is
/// valid, each comes before the next ones, and every position left out comes
/// after the last one listed.
pub open spec fn is_ranking(ranks: Seq<int>, k: nat, order: Seq<usize>) -> bool {
    &&& order.len() == at_most(k, ranks.len())
    &&& forall|i: int| 0 <= i < order.len() ==> (#[trigger] order[i]) < ranks.len()
    &&& forall|i: int, j: int|
        0 <= i < j < order.len() ==> precedes(ranks, #[trigger] order[i] as int, #[trigger] order[j] as int)
    &&& forall|m: int|
        0 <= m < ranks.len() && !(#[trigger] order.contains(m as usize)) ==> order.len() == k && (k
            > 0 ==> precedes(ranks, order[k - 1] as int, m))
}

/// The positions of `scores` in ranking order, cut after the first `k`.
pub fn rank_top(scores: &Vec<Score>, k: usize) -> (order: Vec<usize>)
    ensures
        is_ranking(ranks_of(scores@), k as nat, order@),
{
    let n = scores.len();
    let ghost ranks = ranks_of(scores@);
    let mut order: Vec<usize> = Vec::new();
    let mut t: usize = 0;
    while t < n
        invariant
            t <= n,
            n == scores.len(),
            ranks == ranks_of(scores@),
            order.len() == t,
            forall|i: int| 0 <= i < t ==> (#[trigger] order[i]) < t,
            forall|i: int, j: int|
                0 <= i < j < t ==> precedes(ranks, #[trigger] order[i] as int, #[trigger] order[j] as int),
            forall|m: int| 0 <= m < t ==> #[trigger] order@.contains(m as usize),
        decreases n - t,
    {
        let mut p: usize = 0;
        while p < order.len() && scores[order[p]].ge(&scores[t])
            invariant
                p <= order.len(),
                order.len() == t,
                t < n,
                n == scores.len(),
                ranks == ranks_of(scores@),
                forall|i: int| 0 <= i < t ==> (#[trigger] order[i]) < t,
                forall|i: int| 0 <= i < p ==> ranks[(#[trigger] order[i]) as int] >= ranks[t as int],
            decreases order.len() - p,
        {
            p += 1;
        }
        let ghost before = order@;
        order.insert(p, t);
        proof {
            let after = order@;
            assert(after == before.insert(p as int, t));
            assert forall|i: int| 0 <= i < t + 1 implies (#[trigger] after[i]) < t + 1 by {
                if i < p {
                    assert(after[i] == before[i]);
                } else if i > p {
                    assert(after[i] == before[i - 1]);
                }
            }
            assert forall|i: int, j: int| 0 <= i < j < t + 1 implies precedes(
                ranks,
                #[trigger] after[i] as int,
                #[trigger] after[j] as int,
            ) by {
                if j < p {
                    assert(after[i] == before[i] && after[j] == before[j]);
                } else if j == p {
                    assert(after[i] == before[i]);
                } else if i == p {
                    assert(after[j] == before[j - 1]);
                    if p < j - 1 {
                        assert(precedes(ranks, before[p as int] as int, before[j - 1] as int));
                    }
                } else if i < p {
                    assert(after[i] == before[i] && after[j] == before[j - 1]);
                } else {
                    assert(after[i] == before[i - 1] && after[j] == before[j - 1]);
                }
            }
            assert forall|m: int| 0 <= m < t + 1 implies #[trigger] after.contains(m as usize) by {
                if m == t {
                    assert(after[p as int] == t);
                } else {
                    assert(before.contains(m as usize));
                    let i = choose|i: int| 0 <= i < before.len() && before[i] == m as usize;
                    if i < p {
                        assert(after[i] == before[i]);
                    } else {
                        assert(after[i + 1] == before[i]);
                    }
                }
            }
        }
        t += 1;
    }
    let ghost full = order@;
    if k < n {
        order.truncate(k);
        proof {
            let cut = order@;
            assert(cut == full.subrange(0, k as int));
            assert forall|m: int|
                0 <= m < ranks.len() && !(#[trigger] cut.contains(m as usize)) implies cut.len() == k
                && (k > 0 ==> precedes(ranks, cut[k - 1] as int, m)) by {
                assert(full.contains(m as usize));
                let i = choose|i: int| 0 <= i < full.len() && full[i] == m as usize;
                assert(i >= k) by {
                    if i < k {
                        assert(cut[i] == full[i]);
                    }
                }
                if k > 0 {
                    assert(precedes(ranks, full[k - 1] as int, full[i] as int));
                }
            }
        }
    }
    order
}

/// Only one order is the ranking of given ranks cut after `k`.
pub proof fn lemma_ranking_unique(ranks: Seq<int>, k: nat, a: Seq<usize>, b: Seq<usize>)
    requires
        is_ranking(ranks, k, a),
        is_ranking(ranks, k, b),
    ensures
        a == b,
{
    assert forall|i: int| 0 <= i < a.len() implies a[i] == b[i] by {
        lemma_ranking_agrees(ranks, k, a, b, i);
    }
    assert(a =~= b);
}

/// Two rankings of the same ranks agree at every position.
proof fn lemma_ranking_agrees(ranks: Seq<int>, k: nat, a: Seq<usize>, b: Seq<usize>, i: int)
    requires
        is_ranking(ranks, k, a),
        is_ranking(ranks, k, b),
        0 <= i < a.len(),
    ensures
        a[i] == b[i],
    decreases i,
{
    assert forall|j: int| 0 <= j < i implies a[j] == b[j] by {
        lemma_ranking_agrees(ranks, k, a, b, j);
    }
    if a[i] != b[i] {
        lemma_not_later(ranks, k, a, b, i);
        lemma_not_later(ranks, k, b, a, i);
    }
}

/// Where two rankings agree before position `i`, the entry of the first at
/// `i` does not come after that of the second.
proof fn lemma_not_later(ranks: Seq<int>, k: nat, a: Seq<usize>, b: Seq<usize>, i: int)
    requires
        is_ranking(ranks, k, a),
        is_ranking(ranks, k, b),
        0 <= i < a.len(),
        forall|j: int| 0 <= j < i ==> a[j] == b[j],
        a[i] != b[i],
    ensures
        precedes(ranks, a[i] as int, b[i] as int),
{
    let x = b[i];
    assert(x < ranks.len());
    if a.contains(x) {
        let j = choose|j: int| 0 <= j < a.len() && a[j] == x;
        if j < i {
            assert(precedes(ranks, b[j] as int, b[i] as int));
        } else {
            assert(precedes(ranks, a[i] as int, a[j] as int));
        }
    } else {
        let m = x as int;
        assert(m as usize == x);
        assert(!a.contains(m as usize));
        assert(precedes(ranks, a[k - 1] as int, m));
        if i < k - 1 {
            assert(precedes(ranks, a[i] as int, a[k - 1] as int));
        }
    }
}

} // verus!
