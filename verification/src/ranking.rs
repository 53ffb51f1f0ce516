//! Ranking by score: positions ordered by descending score, equal
//! scores in their original order.

use vstd::prelude::*;

verus! {

/// Whether position `a` stands before position `b` in the ranking: its
/// score is higher, or equal with `a` the earlier position.
pub open spec fn precedes(scores: Seq<u64>, a: int, b: int) -> bool {
    scores[a] > scores[b] || (scores[a] == scores[b] && a < b)
}

/// The ranking `r` with position `k` added behind every position whose
/// score is not lower than that of `k`.
pub open spec fn insert_ranked(r: Seq<int>, scores: Seq<u64>, k: int) -> Seq<int>
    decreases r.len(),
{
    if r.len() == 0 {
        seq![k]
    } else if scores[r.last()] >= scores[k] {
        r.push(k)
    } else {
        insert_ranked(r.drop_last(), scores, k).push(r.last())
    }
}

/// The ranking of the first `n` positions of `scores`.
pub open spec fn ranking_upto(scores: Seq<u64>, n: nat) -> Seq<int>
    decreases n,
{
    if n == 0 {
        Seq::empty()
    } else {
        insert_ranked(ranking_upto(scores, (n - 1) as nat), scores, n - 1)
    }
}

/// The positions of `scores` by descending score; positions of equal
/// score keep their order.
pub open spec fn ranking(scores: Seq<u64>) -> Seq<int> {
    ranking_upto(scores, scores.len())
}

/// Whether `r` lists each of the positions below `n` once, every entry
/// preceding all later ones.
pub open spec fn is_ranking_of(r: Seq<int>, scores: Seq<u64>, n: nat) -> bool {
    &&& r.len() == n
    &&& forall|i: int| 0 <= i < r.len() ==> 0 <= #[trigger] r[i] < n
    &&& forall|m: int| 0 <= m < n ==> r.contains(m)
    &&& forall|i: int, j: int| 0 <= i < j < r.len() ==> precedes(scores, #[trigger] r[i], #[trigger] r[j])
}

/// Whether `p` is where position `k` belongs in `r`: everything from
/// `p` on scores lower than `k`, and the entry before `p` does not.
pub open spec fn is_insertion_point(r: Seq<int>, scores: Seq<u64>, k: int, p: int) -> bool {
    &&& 0 <= p <= r.len()
    &&& forall|j: int| p <= j < r.len() ==> scores[#[trigger] r[j]] < scores[k]
    &&& p > 0 ==> scores[r[p - 1]] >= scores[k]
}

/// [`insert_ranked`] puts the new position at its insertion point.
pub proof fn lemma_insert_ranked_at(r: Seq<int>, scores: Seq<u64>, k: int, p: int)
    requires
        is_insertion_point(r, scores, k, p),
    ensures
        insert_ranked(r, scores, k) == r.insert(p, k),
    decreases r.len(),
{
    if r.len() == 0 {
        assert(seq![k] =~= r.insert(p, k));
    } else if p == r.len() {
        assert(r.push(k) =~= r.insert(p, k));
    } else {
        assert(scores[r[r.len() - 1]] < scores[k]);
        let shorter = r.drop_last();
        assert forall|j: int| p <= j < shorter.len() implies scores[#[trigger] shorter[j]]
            < scores[k] by {
            assert(shorter[j] == r[j]);
        }
        lemma_insert_ranked_at(shorter, scores, k, p);
        assert(shorter.insert(p, k).push(r.last()) =~= r.insert(p, k));
    }
}

/// Adding the next position to a ranking of the positions below it
/// gives a ranking again.
pub proof fn lemma_insert_keeps_ranking(r: Seq<int>, scores: Seq<u64>, k: nat)
    requires
        is_ranking_of(r, scores, k),
        k < scores.len(),
    ensures
        is_ranking_of(insert_ranked(r, scores, k as int), scores, k + 1),
    decreases r.len(),
{
    lemma_insertion_point_exists(r, scores, k as int, r.len() as int);
    let p = choose|p: int| is_insertion_point(r, scores, k as int, p);
    lemma_insert_ranked_at(r, scores, k as int, p);
    let out = r.insert(p, k as int);
    assert forall|m: int| 0 <= m < k + 1 implies out.contains(m) by {
        if m == k {
            assert(out[p] == m);
        } else {
            let i = choose|i: int| 0 <= i < r.len() && r[i] == m;
            assert(r.contains(m));
            if i < p {
                assert(out[i] == m);
            } else {
                assert(out[i + 1] == m);
            }
        }
    }
    assert forall|i: int, j: int| 0 <= i < j < out.len() implies precedes(
        scores,
        #[trigger] out[i],
        #[trigger] out[j],
    ) by {
        if j < p {
            assert(out[i] == r[i] && out[j] == r[j]);
        } else if j == p {
            assert(out[i] == r[i]);
            // r[i] precedes or ties r[p - 1], which does not score lower than k
            if i < p - 1 {
                assert(precedes(scores, r[i], r[p - 1]));
            }
        } else if i == p {
            assert(out[j] == r[j - 1]);
        } else if i < p {
            assert(out[i] == r[i] && out[j] == r[j - 1]);
        } else {
            assert(out[i] == r[i - 1] && out[j] == r[j - 1]);
        }
    }
}

/// Scanning a ranking from its end finds the point of insertion.
pub proof fn lemma_insertion_point_exists(r: Seq<int>, scores: Seq<u64>, k: int, upper: int)
    requires
        0 <= upper <= r.len(),
        forall|j: int| upper <= j < r.len() ==> scores[#[trigger] r[j]] < scores[k],
    ensures
        exists|p: int| is_insertion_point(r, scores, k, p),
    decreases upper,
{
    if upper == 0 || scores[r[upper - 1]] >= scores[k] {
        assert(is_insertion_point(r, scores, k, upper));
    } else {
        lemma_insertion_point_exists(r, scores, k, upper - 1);
    }
}

/// The ranking lists every position once, by descending score, and
/// positions of equal score in their original order.
pub proof fn lemma_ranking_upto(scores: Seq<u64>, n: nat)
    requires
        n <= scores.len(),
    ensures
        is_ranking_of(ranking_upto(scores, n), scores, n),
    decreases n,
{
    if n > 0 {
        lemma_ranking_upto(scores, (n - 1) as nat);
        lemma_insert_keeps_ranking(ranking_upto(scores, (n - 1) as nat), scores, (n - 1) as nat);
    }
}

/// The ranking lists every position once, by descending score, and
/// positions of equal score in their original order.
pub proof fn lemma_ranking(scores: Seq<u64>)
    ensures
        is_ranking_of(ranking(scores), scores, scores.len()),
{
    lemma_ranking_upto(scores, scores.len());
}

/// The positions of `scores` by descending score; positions of equal
/// score keep their order.
pub fn rank(scores: &Vec<u64>) -> (order: Vec<usize>)
    ensures
        order@.len() == scores@.len(),
        forall|i: int| 0 <= i < order@.len() ==> order@[i] as int == ranking(scores@)[i],
        forall|i: int| 0 <= i < order@.len() ==> order@[i] < scores@.len(),
{
    let mut order: Vec<usize> = Vec::new();
    let mut k: usize = 0;
    while k < scores.len()
        invariant
            k <= scores.len(),
            order@.len() == k,
            order@.map_values(|x: usize| x as int) == ranking_upto(scores@, k as nat),
            forall|i: int| 0 <= i < order@.len() ==> order@[i] < k,
        decreases scores.len() - k,
    {
        let ghost before = order@.map_values(|x: usize| x as int);
        let mut p: usize = order.len();
        while p > 0 && scores[order[p - 1]] < scores[k]
            invariant
                p <= order@.len(),
                order@.len() == k,
                k < scores.len(),
                forall|i: int| 0 <= i < order@.len() ==> order@[i] < k,
                before == order@.map_values(|x: usize| x as int),
                forall|j: int| p <= j < before.len() ==> scores@[#[trigger] before[j]] < scores@[k as int],
            decreases p,
        {
            p -= 1;
        }
        proof {
            lemma_insert_ranked_at(before, scores@, k as int, p as int);
        }
        order.insert(p, k);
        proof {
            assert(order@.map_values(|x: usize| x as int) =~= before.insert(p as int, k as int));
        }
        k += 1;
    }
    proof {
        assert forall|i: int| 0 <= i < order@.len() implies order@[i] as int == ranking(
            scores@,
        )[i] by {
            assert(order@.map_values(|x: usize| x as int)[i] == order@[i] as int);
        }
    }
    order
}

} // verus!
