//! Ordering of scored candidates: strictly positive scores only, highest
//! score first, ties kept in catalog order, capped at a maximum count.

use vstd::prelude::*;

verus! {

/// Candidate `a` comes before candidate `b`: a higher score, or an equal
/// score and an earlier position in the catalog.
pub open spec fn ranks_before(scores: Seq<int>, a: int, b: int) -> bool {
    scores[a] > scores[b] || (scores[a] == scores[b] && a < b)
}

/// The scores of a `Vec<i128>` as mathematical integers.
pub open spec fn int_scores(v: Seq<i128>) -> Seq<int> {
    Seq::new(v.len(), |i: int| v[i] as int)
}

/// `r` lists candidate positions that all have a strictly positive score.
pub open spec fn all_positive(scores: Seq<int>, r: Seq<usize>) -> bool {
    forall|k: int| 0 <= k < r.len() ==> (r[k] as int) < scores.len() && scores[r[k] as int] > 0
}

/// `r` is strictly ordered by `ranks_before` (so it holds no position twice).
pub open spec fn is_ordered(scores: Seq<int>, r: Seq<usize>) -> bool {
    forall|a: int, b: int| 0 <= a < b < r.len() ==> ranks_before(scores, r[a] as int, r[b] as int)
}

/// `r` is the top of the ranking of `scores`: the candidates with a strictly
/// positive score, best first, ties in catalog order, cut after `max` items.
/// A positive candidate is left out only when `r` is full and every listed
/// candidate ranks before it.
pub open spec fn is_top_ranking(scores: Seq<int>, max: int, r: Seq<usize>) -> bool {
    &&& r.len() <= max
    &&& all_positive(scores, r)
    &&& is_ordered(scores, r)
    &&& forall|i: int|
        #![trigger scores[i]]
        0 <= i < scores.len() && scores[i] > 0 && !r.contains(i as usize) ==> {
            &&& r.len() == max
            &&& forall|k: int| 0 <= k < r.len() ==> ranks_before(scores, r[k] as int, i)
        }
}

/// The top ranking of `scores` cut after `max` items.
pub open spec fn top_ranking(scores: Seq<int>, max: int) -> Seq<usize> {
    choose|r: Seq<usize>| is_top_ranking(scores, max, r)
}

/// Ranking is deterministic: at most one sequence is the top ranking of
/// given scores and a given maximum, so equal inputs give equal results,
/// equal scores included.
pub proof fn lemma_ranking_unique(scores: Seq<int>, max: int, r1: Seq<usize>, r2: Seq<usize>)
    requires
        is_top_ranking(scores, max, r1),
        is_top_ranking(scores, max, r2),
    ensures
        r1 == r2,
{
    let n = if r1.len() < r2.len() { r1.len() as int } else { r2.len() as int };
    lemma_agree_before(scores, max, r1, r2, n);
    if r1.len() <= r2.len() {
        lemma_no_longer(scores, max, r1, r2);
    } else {
        lemma_no_longer(scores, max, r2, r1);
    }
    assert(r1 =~= r2);
}

/// Two top rankings agree on their first `k` items.
proof fn lemma_agree_before(scores: Seq<int>, max: int, r1: Seq<usize>, r2: Seq<usize>, k: int)
    requires
        is_top_ranking(scores, max, r1),
        is_top_ranking(scores, max, r2),
        0 <= k <= r1.len(),
        k <= r2.len(),
    ensures
        forall|j: int| 0 <= j < k ==> r1[j] == r2[j],
    decreases k,
{
    if k > 0 {
        lemma_agree_before(scores, max, r1, r2, k - 1);
        lemma_same_at(scores, max, r1, r2, k - 1);
        lemma_same_at(scores, max, r2, r1, k - 1);
    }
}

/// Where two top rankings agree before position `k`, the second one's item
/// at `k` does not rank before the first one's.
proof fn lemma_same_at(scores: Seq<int>, max: int, r1: Seq<usize>, r2: Seq<usize>, k: int)
    requires
        is_top_ranking(scores, max, r1),
        is_top_ranking(scores, max, r2),
        0 <= k < r1.len(),
        k < r2.len(),
        forall|j: int| 0 <= j < k ==> r1[j] == r2[j],
    ensures
        !ranks_before(scores, r2[k] as int, r1[k] as int) || r1[k] == r2[k],
{
    let x = r1[k] as int;
    let y = r2[k] as int;
    if x != y && ranks_before(scores, y, x) {
        assert(scores[y] > 0);
        if r1.contains(y as usize) {
            let j = choose|j: int| 0 <= j < r1.len() && r1[j] == y as usize;
            if j < k {
                assert(r2[j] == r2[k]);
                if j < k {
                    assert(ranks_before(scores, r2[j] as int, r2[k] as int));
                }
            } else if j > k {
                assert(ranks_before(scores, r1[k] as int, r1[j] as int));
            }
        } else {
            assert(ranks_before(scores, r1[k] as int, y));
        }
    }
}

/// A top ranking is no proper prefix of another: that one would have left
/// out a positive candidate while not full.
proof fn lemma_no_longer(scores: Seq<int>, max: int, r1: Seq<usize>, r2: Seq<usize>)
    requires
        is_top_ranking(scores, max, r1),
        is_top_ranking(scores, max, r2),
        r1.len() <= r2.len(),
        forall|j: int| 0 <= j < r1.len() ==> r1[j] == r2[j],
    ensures
        r1.len() == r2.len(),
{
    if r1.len() < r2.len() {
        let y = r2[r1.len() as int] as int;
        assert(scores[y] > 0);
        if r1.contains(y as usize) {
            let j = choose|j: int| 0 <= j < r1.len() && r1[j] == y as usize;
            assert(r2[j] == r2[r1.len() as int]);
            assert(ranks_before(scores, r2[j] as int, r2[r1.len() as int] as int));
        }
    }
}

/// Orders the candidates by `scores` (indexed by catalog position): those
/// with a strictly positive score, highest first, equal scores in catalog
/// order, at most `max_entries` of them.
pub fn rank(scores: &Vec<i128>, max_entries: usize) -> (r: Vec<usize>)
    ensures
        is_top_ranking(int_scores(scores@), max_entries as int, r@),
        r@ == top_ranking(int_scores(scores@), max_entries as int),
{
    let ghost sc = int_scores(scores@);
    let mut order: Vec<usize> = Vec::new();
    let mut i: usize = 0;
    while i < scores.len()
        invariant
            i <= scores.len(),
            sc == int_scores(scores@),
            all_positive(sc, order@),
            is_ordered(sc, order@),
            forall|k: int| 0 <= k < order.len() ==> (order[k] as int) < i,
            forall|j: int| 0 <= j < i && sc[j] > 0 ==> order@.contains(j as usize),
        decreases scores.len() - i,
    {
        if scores[i] > 0 {
            let mut pos: usize = 0;
            while pos < order.len() && scores[order[pos]] >= scores[i]
                invariant
                    pos <= order.len(),
                    i < scores.len(),
                    sc == int_scores(scores@),
                    all_positive(sc, order@),
                    forall|k: int| 0 <= k < pos ==> sc[order[k] as int] >= sc[i as int],
                decreases order.len() - pos,
            {
                pos = pos + 1;
            }
            let ghost before = order@;
            order.insert(pos, i);
            assert forall|a: int, b: int| 0 <= a < b < order@.len() implies ranks_before(
                sc,
                order@[a] as int,
                order@[b] as int,
            ) by {
                if b < pos {
                } else if b == pos {
                    assert(order@[a] == before[a]);
                } else if a < pos {
                    assert(order@[b] == before[b - 1]);
                    if pos < before.len() {
                        assert(sc[before[pos as int] as int] < sc[i as int]);
                    }
                } else if a == pos {
                    assert(order@[b] == before[b - 1]);
                    assert(sc[before[pos as int] as int] < sc[i as int]);
                    if b - 1 > pos {
                        assert(ranks_before(sc, before[pos as int] as int, before[b - 1] as int));
                    }
                } else {
                    assert(order@[a] == before[a - 1]);
                    assert(order@[b] == before[b - 1]);
                }
            }
            assert forall|j: int| 0 <= j < i + 1 && sc[j] > 0 implies order@.contains(
                j as usize,
            ) by {
                if j == i {
                    assert(order@[pos as int] == i);
                } else {
                    assert(before.contains(j as usize));
                    let k = choose|k: int| 0 <= k < before.len() && before[k] == j as usize;
                    if k < pos {
                        assert(order@[k] == j as usize);
                    } else {
                        assert(order@[k + 1] == j as usize);
                    }
                }
            }
        }
        i = i + 1;
    }
    let ghost full = order@;
    order.truncate(max_entries);
    assert forall|j: int|
        #![trigger sc[j]]
        0 <= j < sc.len() && sc[j] > 0 && !order@.contains(j as usize) implies {
        &&& order@.len() == max_entries as int
        &&& forall|k: int| 0 <= k < order@.len() ==> ranks_before(sc, order@[k] as int, j)
    } by {
        assert(full.contains(j as usize));
        let p = choose|p: int| 0 <= p < full.len() && full[p] == j as usize;
        if p < order@.len() {
            assert(order@[p] == j as usize);
        }
        assert forall|k: int| 0 <= k < order@.len() implies ranks_before(sc, order@[k] as int, j) by {
            assert(order@[k] == full[k]);
        }
    }
    proof {
        let t = top_ranking(sc, max_entries as int);
        lemma_ranking_unique(sc, max_entries as int, order@, t);
    }
    order
}

} // verus!
