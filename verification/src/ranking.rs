//! Ranking by score: the indices with a positive score, best score first, and
//! among equal scores the lower index first (the order a stable sort by
//! descending score leaves them in).

use vstd::prelude::*;

verus! {

/// Index `a` comes before index `b`: a higher score, or the same score and a
/// lower index.
pub open spec fn ranks_before(scores: Seq<nat>, a: int, b: int) -> bool {
    scores[a] > scores[b] || (scores[a] == scores[b] && a < b)
}

/// `order` ranks the indices below `n` that have a positive score: it holds
/// each of them, nothing else, and in ranking order.
pub open spec fn is_ranking_upto(order: Seq<int>, scores: Seq<nat>, n: int) -> bool {
    &&& forall|k: int| 0 <= k < order.len() ==> 0 <= #[trigger] order[k] < n && scores[order[k]] > 0
    &&& forall|i: int| 0 <= i < n && scores[i] > 0 ==> #[trigger] order.contains(i)
    &&& forall|a: int, b: int|
        0 <= a < b < order.len() ==> ranks_before(scores, #[trigger] order[a], #[trigger] order[b])
}

/// `order` ranks all indices of `scores` that have a positive score.
pub open spec fn is_ranking(order: Seq<int>, scores: Seq<nat>) -> bool {
    is_ranking_upto(order, scores, scores.len() as int)
}

/// The ranking of `scores`. There is exactly one (`lemma_ranking`).
pub open spec fn ranking(scores: Seq<nat>) -> Seq<int> {
    choose|order: Seq<int>| is_ranking(order, scores)
}

/// The machine indices of a ranking.
pub open spec fn as_ints(order: Seq<usize>) -> Seq<int> {
    order.map_values(|i: usize| i as int)
}

/// In a list in ranking order, the entries whose score is at least `v` come
/// first; returns how many there are.
proof fn lemma_split_point(order: Seq<int>, scores: Seq<nat>, v: nat) -> (p: int)
    requires
        forall|k: int| 0 <= k < order.len() ==> 0 <= #[trigger] order[k] < scores.len(),
        forall|a: int, b: int|
            0 <= a < b < order.len() ==> ranks_before(scores, #[trigger] order[a], #[trigger] order[b]),
    ensures
        0 <= p <= order.len(),
        forall|k: int| 0 <= k < p ==> scores[#[trigger] order[k]] >= v,
        forall|k: int| p <= k < order.len() ==> scores[#[trigger] order[k]] < v,
    decreases order.len(),
{
    if order.len() == 0 {
        0
    } else if scores[order.last()] >= v {
        assert forall|k: int| 0 <= k < order.len() implies scores[#[trigger] order[k]] >= v by {
            if k < order.len() - 1 {
                assert(ranks_before(scores, order[k], order[order.len() - 1]));
            }
        }
        order.len() as int
    } else {
        let prefix = order.drop_last();
        assert forall|a: int, b: int| 0 <= a < b < prefix.len() implies ranks_before(scores, #[trigger] prefix[a], #[trigger] prefix[b]) by {
            assert(ranks_before(scores, order[a], order[b]));
        }
        let p = lemma_split_point(prefix, scores, v);
        assert forall|k: int| 0 <= k < p implies scores[#[trigger] order[k]] >= v by {
            assert(prefix[k] == order[k]);
        }
        assert forall|k: int| p <= k < order.len() implies scores[#[trigger] order[k]] < v by {
            if k < order.len() - 1 {
                assert(prefix[k] == order[k]);
            }
        }
        p
    }
}

/// A ranking of the indices below `n` extends to index `n` by putting `n`
/// where its score belongs (after every entry scoring at least as much),
/// when its score is positive, and by leaving it out otherwise.
pub proof fn lemma_rank_next(order: Seq<int>, scores: Seq<nat>, n: int, p: int)
    requires
        is_ranking_upto(order, scores, n),
        0 <= n < scores.len(),
        0 <= p <= order.len(),
        forall|k: int| 0 <= k < p ==> scores[#[trigger] order[k]] >= scores[n],
        forall|k: int| p <= k < order.len() ==> scores[#[trigger] order[k]] < scores[n],
    ensures
        scores[n] > 0 ==> is_ranking_upto(order.insert(p, n), scores, n + 1),
        scores[n] == 0 ==> is_ranking_upto(order, scores, n + 1),
{
    if scores[n] > 0 {
        let next = order.insert(p, n);
        assert forall|k: int| 0 <= k < next.len() implies 0 <= #[trigger] next[k] < n + 1
            && scores[next[k]] > 0 by {
            if k < p {
                assert(next[k] == order[k]);
            } else if k > p {
                assert(next[k] == order[k - 1]);
            }
        }
        assert forall|i: int| 0 <= i < n + 1 && scores[i] > 0 implies #[trigger] next.contains(i) by {
            if i == n {
                assert(next[p] == n);
            } else {
                assert(order.contains(i));
                let k = choose|k: int| 0 <= k < order.len() && order[k] == i;
                if k < p {
                    assert(next[k] == i);
                } else {
                    assert(next[k + 1] == i);
                }
            }
        }
        assert forall|a: int, b: int| 0 <= a < b < next.len() implies ranks_before(
            scores,
            #[trigger] next[a],
            #[trigger] next[b],
        ) by {
            if b < p {
                assert(next[a] == order[a] && next[b] == order[b]);
            } else if b == p {
                assert(next[a] == order[a]);
            } else if a < p {
                assert(next[a] == order[a] && next[b] == order[b - 1]);
                assert(ranks_before(scores, order[a], order[b - 1]));
            } else if a == p {
                assert(next[b] == order[b - 1]);
            } else {
                assert(next[a] == order[a - 1] && next[b] == order[b - 1]);
                assert(ranks_before(scores, order[a - 1], order[b - 1]));
            }
        }
    } else {
        assert forall|i: int| 0 <= i < n + 1 && scores[i] > 0 implies #[trigger] order.contains(i) by {
            assert(i != n);
        }
    }
}

/// How many of `scores` are positive.
pub open spec fn count_positive(scores: Seq<nat>) -> nat
    decreases scores.len(),
{
    if scores.len() == 0 {
        0
    } else {
        count_positive(scores.drop_last()) + if scores.last() > 0 {
            1nat
        } else {
            0nat
        }
    }
}

/// Some list ranks the indices below `n`; it has one entry per positive
/// score below `n`.
proof fn lemma_ranking_upto_exists(scores: Seq<nat>, n: int) -> (order: Seq<int>)
    requires
        0 <= n <= scores.len(),
    ensures
        is_ranking_upto(order, scores, n),
        order.len() == count_positive(scores.take(n)),
    decreases n,
{
    if n == 0 {
        Seq::empty()
    } else {
        let prev = lemma_ranking_upto_exists(scores, n - 1);
        assert(scores.take(n).drop_last() =~= scores.take(n - 1));
        let p = lemma_split_point(prev, scores, scores[n - 1]);
        lemma_rank_next(prev, scores, n - 1, p);
        if scores[n - 1] > 0 {
            prev.insert(p, n - 1)
        } else {
            prev
        }
    }
}

/// Two lists in strict ranking order with the same entries are equal.
proof fn lemma_same_entries_equal(o1: Seq<int>, o2: Seq<int>, scores: Seq<nat>)
    requires
        forall|a: int, b: int|
            0 <= a < b < o1.len() ==> ranks_before(scores, #[trigger] o1[a], #[trigger] o1[b]),
        forall|a: int, b: int|
            0 <= a < b < o2.len() ==> ranks_before(scores, #[trigger] o2[a], #[trigger] o2[b]),
        forall|x: int| o1.contains(x) <==> o2.contains(x),
    ensures
        o1 == o2,
    decreases o1.len(),
{
    if o1.len() == 0 {
        if o2.len() > 0 {
            assert(o2.contains(o2[0]));
        }
        assert(o1 =~= o2);
    } else {
        assert(o1.contains(o1[0]));
        let x = o1[0];
        let y = o2[0];
        assert(o2.contains(y));
        let a = choose|a: int| 0 <= a < o1.len() && o1[a] == y;
        let b = choose|b: int| 0 <= b < o2.len() && o2[b] == x;
        if x != y {
            assert(a > 0 && b > 0);
            assert(ranks_before(scores, o1[0], o1[a]));
            assert(ranks_before(scores, o2[0], o2[b]));
        }
        let r1 = o1.drop_first();
        let r2 = o2.drop_first();
        assert forall|z: int| r1.contains(z) <==> r2.contains(z) by {
            if r1.contains(z) {
                let k = choose|k: int| 0 <= k < r1.len() && r1[k] == z;
                assert(o1[k + 1] == z);
                assert(ranks_before(scores, o1[0], o1[k + 1]));
                assert(o1.contains(z));
                let m = choose|m: int| 0 <= m < o2.len() && o2[m] == z;
                assert(m != 0);
                assert(r2[m - 1] == z);
            }
            if r2.contains(z) {
                let k = choose|k: int| 0 <= k < r2.len() && r2[k] == z;
                assert(o2[k + 1] == z);
                assert(ranks_before(scores, o2[0], o2[k + 1]));
                assert(o2.contains(z));
                let m = choose|m: int| 0 <= m < o1.len() && o1[m] == z;
                assert(m != 0);
                assert(r1[m - 1] == z);
            }
        }
        assert forall|i: int, j: int| 0 <= i < j < r1.len() implies ranks_before(
            scores,
            #[trigger] r1[i],
            #[trigger] r1[j],
        ) by {
            assert(ranks_before(scores, o1[i + 1], o1[j + 1]));
        }
        assert forall|i: int, j: int| 0 <= i < j < r2.len() implies ranks_before(
            scores,
            #[trigger] r2[i],
            #[trigger] r2[j],
        ) by {
            assert(ranks_before(scores, o2[i + 1], o2[j + 1]));
        }
        lemma_same_entries_equal(r1, r2, scores);
        assert(o1 =~= seq![x] + r1);
        assert(o2 =~= seq![y] + r2);
    }
}

/// Every list of scores has exactly one ranking, `ranking(scores)`, with one
/// entry per positive score.
pub proof fn lemma_ranking(scores: Seq<nat>)
    ensures
        is_ranking(ranking(scores), scores),
        forall|order: Seq<int>| #[trigger] is_ranking(order, scores) ==> order == ranking(scores),
        ranking(scores).len() == count_positive(scores),
{
    let witness = lemma_ranking_upto_exists(scores, scores.len() as int);
    assert(scores.take(scores.len() as int) =~= scores);
    assert(is_ranking(witness, scores));
    let r = ranking(scores);
    assert forall|order: Seq<int>| #[trigger] is_ranking(order, scores) implies order == r by {
        assert forall|x: int| order.contains(x) <==> r.contains(x) by {
            if order.contains(x) {
                let k = choose|k: int| 0 <= k < order.len() && order[k] == x;
                assert(0 <= order[k] < scores.len() && scores[order[k]] > 0);
            }
            if r.contains(x) {
                let k = choose|k: int| 0 <= k < r.len() && r[k] == x;
                assert(0 <= r[k] < scores.len() && scores[r[k]] > 0);
            }
        }
        lemma_same_entries_equal(order, r, scores);
    }
    assert(witness == r);
}

/// Scores as numbers.
pub open spec fn score_seq(scores: Seq<u128>) -> Seq<nat> {
    scores.map_values(|x: u128| x as nat)
}

/// The ranking of `scores`: the indices with a positive score, highest score
/// first, equal scores by index.
pub fn rank(scores: &Vec<u128>) -> (order: Vec<usize>)
    ensures
        as_ints(order@) == ranking(score_seq(scores@)),
{
    let ghost sc = score_seq(scores@);
    let n: usize = scores.len();
    let mut order: Vec<usize> = Vec::new();
    for i in 0..n
        invariant
            n == scores@.len(),
            sc == score_seq(scores@),
            is_ranking_upto(as_ints(order@), sc, i as int),
    {
        let v: u128 = scores[i];
        let ghost before = as_ints(order@);
        if v > 0 {
            let mut p: usize = 0;
            while p < order.len()
                invariant
                    p <= order@.len(),
                    before == as_ints(order@),
                    n == scores@.len(),
                    i < n,
                    sc == score_seq(scores@),
                    v == sc[i as int],
                    is_ranking_upto(before, sc, i as int),
                    forall|k: int| 0 <= k < p ==> sc[#[trigger] before[k]] >= sc[i as int],
                ensures
                    p <= order@.len(),
                    forall|k: int| 0 <= k < p ==> sc[#[trigger] before[k]] >= sc[i as int],
                    p < order@.len() ==> sc[before[p as int]] < sc[i as int],
                decreases order@.len() - p,
            {
                assert(before[p as int] == order@[p as int] as int);
                if scores[order[p]] < v {
                    break;
                }
                p = p + 1;
            }
            proof {
                assert forall|k: int| p <= k < before.len() implies sc[#[trigger] before[k]]
                    < sc[i as int] by {
                    if k > p {
                        assert(ranks_before(sc, before[p as int], before[k]));
                    }
                }
                lemma_rank_next(before, sc, i as int, p as int);
            }
            order.insert(p, i);
            assert(as_ints(order@) =~= before.insert(p as int, i as int));
        } else {
            proof {
                lemma_rank_next(before, sc, i as int, before.len() as int);
            }
        }
    }
    proof {
        assert(is_ranking(as_ints(order@), sc));
        lemma_ranking(sc);
    }
    order
}

} // verus!
