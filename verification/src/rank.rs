//! Ranking by score, and the window of a ranking that a query asks for.
//!
//! Candidates are ranked by descending score. Two candidates with equal
//! scores keep the order in which they were given.

use vstd::prelude::*;
use crate::document::{result_models, result_scores, SearchResult, SearchResultModel};
use crate::ieee::{single_key, single_key_exec};

verus! {

/// The keys by which scores are ordered.
pub open spec fn score_keys(scores: Seq<u32>) -> Seq<int> {
    Seq::new(scores.len(), |i: int| single_key(scores[i]))
}

/// Whether candidate `a` comes before candidate `b`: it has the higher key,
/// or the same key and was given earlier.
pub open spec fn precedes(keys: Seq<int>, a: int, b: int) -> bool {
    keys[a] > keys[b] || (keys[a] == keys[b] && a < b)
}

/// Puts the candidate `idx` into a ranking of earlier candidates: behind
/// every candidate whose key is not lower than its own.
pub open spec fn insert_ranked(order: Seq<int>, keys: Seq<int>, idx: int) -> Seq<int>
    decreases order.len(),
{
    if order.len() == 0 {
        seq![idx]
    } else if keys[order.last()] >= keys[idx] {
        order.push(idx)
    } else {
        insert_ranked(order.drop_last(), keys, idx).push(order.last())
    }
}

/// The ranking of the first `n` candidates: their indices, best first.
pub open spec fn ranked_indices(keys: Seq<int>, n: nat) -> Seq<int>
    decreases n,
{
    if n == 0 {
        Seq::empty()
    } else {
        insert_ranked(ranked_indices(keys, (n - 1) as nat), keys, n - 1)
    }
}

/// Whether `order` ranks the candidates below `n`: it holds indices below
/// `n`, and each comes before all that follow it.
pub open spec fn is_ranking(order: Seq<int>, keys: Seq<int>, n: int) -> bool {
    &&& forall|i: int| 0 <= i < order.len() ==> 0 <= #[trigger] order[i] < n
    &&& forall|i: int, j: int|
        0 <= i < j < order.len() ==> precedes(keys, #[trigger] order[i], #[trigger] order[j])
}

/// Where the window of a query starts in a ranking of `n` results.
pub open spec fn page_start(n: int, offset: int) -> int {
    if offset < n {
        offset
    } else {
        n
    }
}

/// Where the window of a query ends in a ranking of `n` results.
pub open spec fn page_end(n: int, offset: int, limit: int) -> int {
    if offset + limit < n {
        offset + limit
    } else {
        n
    }
}

/// The window of a ranking: at most `limit` entries from `offset` on. An
/// offset beyond the end gives an empty window.
pub open spec fn page<T>(ranking: Seq<T>, offset: int, limit: int) -> Seq<T>
    recommends
        0 <= offset,
        0 <= limit,
{
    ranking.subrange(
        page_start(ranking.len() as int, offset),
        page_end(ranking.len() as int, offset, limit),
    )
}

/// Inserting a later candidate into a ranking gives a ranking, one longer,
/// that holds the candidate and what the ranking held.
pub proof fn lemma_insert_ranked(order: Seq<int>, keys: Seq<int>, idx: int)
    requires
        0 <= idx < keys.len(),
        is_ranking(order, keys, idx),
    ensures
        is_ranking(insert_ranked(order, keys, idx), keys, idx + 1),
        insert_ranked(order, keys, idx).len() == order.len() + 1,
        insert_ranked(order, keys, idx).contains(idx),
        forall|i: int| 0 <= i < order.len() ==> insert_ranked(order, keys, idx).contains(order[i]),
        forall|i: int|
            0 <= i < order.len() + 1 ==> {
                let x = #[trigger] insert_ranked(order, keys, idx)[i];
                x == idx || order.contains(x)
            },
    decreases order.len(),
{
    let result = insert_ranked(order, keys, idx);
    if order.len() == 0 {
        assert(result[0] == idx);
    } else if keys[order.last()] >= keys[idx] {
        assert(result[order.len() as int] == idx);
        assert forall|i: int| 0 <= i < order.len() implies result.contains(order[i]) by {
            assert(result[i] == order[i]);
        }
        assert forall|i: int, j: int| 0 <= i < j < result.len() implies precedes(
            keys,
            #[trigger] result[i],
            #[trigger] result[j],
        ) by {
            if j < order.len() {
                assert(precedes(keys, order[i], order[j]));
            } else {
                if i < order.len() - 1 {
                    assert(precedes(keys, order[i], order[order.len() - 1]));
                }
                assert(result[i] == order[i]);
                assert(order[i] < idx);
            }
        }
        assert forall|i: int| 0 <= i < order.len() + 1 implies {
            let x = #[trigger] result[i];
            x == idx || order.contains(x)
        } by {
            if i < order.len() {
                assert(result[i] == order[i]);
            }
        }
    } else {
        let front = order.drop_last();
        let last = order.last();
        assert forall|i: int, j: int| 0 <= i < j < front.len() implies precedes(
            keys,
            #[trigger] front[i],
            #[trigger] front[j],
        ) by {
            assert(precedes(keys, order[i], order[j]));
        }
        assert(is_ranking(front, keys, idx)) by {
            assert forall|i: int| 0 <= i < front.len() implies 0 <= #[trigger] front[i] < idx by {
                assert(front[i] == order[i]);
            }
        }
        lemma_insert_ranked(front, keys, idx);
        let inner = insert_ranked(front, keys, idx);
        assert(result == inner.push(last));
        assert(result[inner.len() as int] == last);
        assert forall|i: int| 0 <= i < result.len() implies 0 <= #[trigger] result[i] < idx
            + 1 by {
            if i < inner.len() {
                assert(result[i] == inner[i]);
            }
        }
        assert forall|i: int, j: int| 0 <= i < j < result.len() implies precedes(
            keys,
            #[trigger] result[i],
            #[trigger] result[j],
        ) by {
            if j < inner.len() {
                assert(result[i] == inner[i]);
                assert(result[j] == inner[j]);
                assert(precedes(keys, inner[i], inner[j]));
            } else {
                assert(result[i] == inner[i]);
                let x = inner[i];
                if x == idx {
                } else {
                    assert(front.contains(x));
                    let k = choose|k: int| 0 <= k < front.len() && front[k] == x;
                    assert(precedes(keys, order[k], order[order.len() - 1]));
                }
            }
        }
        assert(result.contains(idx)) by {
            let k = choose|k: int| 0 <= k < inner.len() && inner[k] == idx;
            assert(result[k] == idx);
        }
        assert forall|i: int| 0 <= i < order.len() implies result.contains(order[i]) by {
            if i < front.len() {
                assert(front[i] == order[i]);
                assert(inner.contains(front[i]));
                let k = choose|k: int| 0 <= k < inner.len() && inner[k] == front[i];
                assert(result[k] == order[i]);
            } else {
                assert(result[inner.len() as int] == order[i]);
            }
        }
        assert forall|i: int| 0 <= i < order.len() + 1 implies {
            let x = #[trigger] result[i];
            x == idx || order.contains(x)
        } by {
            if i < inner.len() {
                assert(result[i] == inner[i]);
                let x = inner[i];
                if x != idx {
                    assert(front.contains(x));
                    let k = choose|k: int| 0 <= k < front.len() && front[k] == x;
                    assert(order[k] == x);
                }
            } else {
                assert(order[order.len() - 1] == last);
            }
        }
    }
}

/// The ranking of `n` candidates holds each of them once, and each entry
/// comes before all that follow it.
pub proof fn lemma_ranked_indices(keys: Seq<int>, n: nat)
    requires
        n <= keys.len(),
    ensures
        ranked_indices(keys, n).len() == n,
        is_ranking(ranked_indices(keys, n), keys, n as int),
        forall|x: int| 0 <= x < n ==> ranked_indices(keys, n).contains(x),
    decreases n,
{
    if n > 0 {
        let before = ranked_indices(keys, (n - 1) as nat);
        lemma_ranked_indices(keys, (n - 1) as nat);
        lemma_insert_ranked(before, keys, n - 1);
        let result = ranked_indices(keys, n);
        assert forall|x: int| 0 <= x < n implies result.contains(x) by {
            if x < n - 1 {
                assert(before.contains(x));
                let k = choose|k: int| 0 <= k < before.len() && before[k] == x;
                assert(result.contains(before[k]));
            }
        }
    }
}

/// The results in ranked order: by descending score, equal scores in the
/// order given.
pub open spec fn ranked_results(results: Seq<SearchResultModel>) -> Seq<SearchResultModel> {
    let order = ranked_indices(score_keys(result_scores(results)), results.len());
    Seq::new(results.len(), |i: int| results[order[i]])
}

/// The keys as integers.
pub open spec fn key_values(keys: Seq<i128>) -> Seq<int> {
    Seq::new(keys.len(), |i: int| keys[i] as int)
}

/// Ranks keys: the indices of `scores`, the highest key first, equal keys
/// in the order given.
pub fn rank_keys(scores: &Vec<i128>) -> (order: Vec<usize>)
    ensures
        order.len() == scores.len(),
        forall|i: int|
            0 <= i < order.len() ==> (#[trigger] order[i]) as int == ranked_indices(
                key_values(scores@),
                scores.len() as nat,
            )[i],
{
    let ghost keys = key_values(scores@);
    let mut order: Vec<usize> = Vec::new();
    let mut idx: usize = 0;
    while idx < scores.len()
        invariant
            idx <= scores.len(),
            keys == key_values(scores@),
            order.len() == idx,
            forall|i: int|
                0 <= i < order.len() ==> (#[trigger] order[i]) as int == ranked_indices(
                    keys,
                    idx as nat,
                )[i],
        decreases scores.len() - idx,
    {
        let ghost before = ranked_indices(keys, idx as nat);
        proof {
            lemma_ranked_indices(keys, idx as nat);
            assert(before.take(idx as int) =~= before);
            assert(before.skip(idx as int) =~= Seq::<int>::empty());
            assert(insert_ranked(before, keys, idx as int) =~= insert_ranked(
                before.take(idx as int),
                keys,
                idx as int,
            ) + before.skip(idx as int));
        }
        let key: i128 = scores[idx];
        let mut pos: usize = order.len();
        while pos > 0 && scores[order[pos - 1]] < key
            invariant
                pos <= order.len(),
                order.len() == idx,
                idx < scores.len(),
                keys == key_values(scores@),
                key == keys[idx as int],
                before == ranked_indices(keys, idx as nat),
                before.len() == idx,
                is_ranking(before, keys, idx as int),
                forall|i: int| 0 <= i < order.len() ==> (#[trigger] order[i]) as int == before[i],
                insert_ranked(before, keys, idx as int) == insert_ranked(
                    before.take(pos as int),
                    keys,
                    idx as int,
                ) + before.skip(pos as int),
            decreases pos,
        {
            proof {
                let front = before.take(pos as int);
                assert(front.last() == before[pos - 1]);
                assert(order[pos - 1] as int == before[pos - 1]);
                assert(keys[front.last()] < keys[idx as int]);
                assert(front.drop_last() =~= before.take(pos - 1));
                assert(insert_ranked(front, keys, idx as int) == insert_ranked(
                    before.take(pos - 1),
                    keys,
                    idx as int,
                ).push(before[pos - 1]));
                assert(insert_ranked(before.take(pos - 1), keys, idx as int).push(before[pos - 1])
                    + before.skip(pos as int) =~= insert_ranked(
                    before.take(pos - 1),
                    keys,
                    idx as int,
                ) + before.skip(pos - 1));
            }
            pos -= 1;
        }
        proof {
            let front = before.take(pos as int);
            if pos > 0 {
                assert(front.last() == before[pos - 1]);
                assert(order[pos - 1] as int == before[pos - 1]);
            }
            assert(insert_ranked(front, keys, idx as int) =~= front.push(idx as int));
            assert(front.push(idx as int) + before.skip(pos as int) =~= before.insert(
                pos as int,
                idx as int,
            ));
        }
        order.insert(pos, idx);
        proof {
            let after = ranked_indices(keys, (idx + 1) as nat);
            assert(after == before.insert(pos as int, idx as int));
            assert forall|i: int| 0 <= i < order.len() implies (#[trigger] order[i]) as int
                == after[i] by {
                if i > pos {
                    assert(after[i] == before[i - 1]);
                }
            }
        }
        idx += 1;
    }
    order
}

/// Ranks scores: the indices of `scores`, the highest score first, equal
/// scores in the order given.
pub fn rank_indices(scores: &Vec<u32>) -> (order: Vec<usize>)
    ensures
        order.len() == scores.len(),
        forall|i: int|
            0 <= i < order.len() ==> (#[trigger] order[i]) as int == ranked_indices(
                score_keys(scores@),
                scores.len() as nat,
            )[i],
{
    let mut keys: Vec<i128> = Vec::new();
    let mut i: usize = 0;
    while i < scores.len()
        invariant
            i <= scores.len(),
            keys.len() == i,
            forall|k: int| 0 <= k < i ==> keys[k] as int == single_key(scores[k]),
        decreases scores.len() - i,
    {
        let key: i64 = single_key_exec(scores[i]);
        keys.push(key as i128);
        i += 1;
    }
    assert(key_values(keys@) =~= score_keys(scores@));
    rank_keys(&keys)
}

/// Ranks results by descending score and returns the window that starts
/// `offset` entries into the ranking and holds at most `limit` of them.
/// Results with equal scores keep the order in which they were given.
pub fn rank_results(results: &Vec<SearchResult>, offset: usize, limit: usize) -> (ranked: Vec<
    SearchResult,
>)
    ensures
        result_models(ranked@) == page(
            ranked_results(result_models(results@)),
            offset as int,
            limit as int,
        ),
{
    let n = results.len();
    let mut scores: Vec<u32> = Vec::new();
    let mut k: usize = 0;
    while k < n
        invariant
            n == results.len(),
            k <= n,
            scores.len() == k,
            forall|i: int| 0 <= i < k ==> scores[i] == (#[trigger] results[i]).score,
        decreases n - k,
    {
        scores.push(results[k].score);
        k += 1;
    }
    let ghost models = result_models(results@);
    let ghost keys = score_keys(result_scores(models));
    assert(scores@ =~= result_scores(models));
    let order = rank_indices(&scores);
    proof {
        lemma_ranked_indices(keys, n as nat);
    }
    let start: usize = if offset < n {
        offset
    } else {
        n
    };
    let end: usize = if limit < n - start {
        start + limit
    } else {
        n
    };
    let ghost full = ranked_results(models);
    let ghost spec_order = ranked_indices(keys, n as nat);
    assert(start == page_start(n as int, offset as int));
    assert(end == page_end(n as int, offset as int, limit as int));
    let mut ranked: Vec<SearchResult> = Vec::new();
    let mut i: usize = start;
    while i < end
        invariant
            n == results.len(),
            order.len() == n,
            start <= i <= end <= n,
            models == result_models(results@),
            spec_order.len() == n,
            is_ranking(spec_order, keys, n as int),
            forall|j: int| 0 <= j < n ==> (#[trigger] order[j]) as int == spec_order[j],
            full == Seq::new(n as nat, |j: int| models[spec_order[j]]),
            ranked.len() == i - start,
            forall|j: int| 0 <= j < ranked.len() ==> (#[trigger] ranked[j])@ == full[start + j],
        decreases end - i,
    {
        let at: usize = order[i];
        assert(0 <= spec_order[i as int] < n);
        ranked.push(results[at].clone());
        i += 1;
    }
    assert(result_models(ranked@) =~= full.subrange(start as int, end as int));
    ranked
}

/// A ranking is in order of score: no entry has a lower score key than one
/// that follows it.
pub proof fn lemma_ranked_results_sorted(results: Seq<SearchResultModel>, i: int, j: int)
    requires
        0 <= i <= j < results.len(),
    ensures
        ranked_results(results).len() == results.len(),
        single_key(ranked_results(results)[i].score) >= single_key(
            ranked_results(results)[j].score,
        ),
{
    let keys = score_keys(result_scores(results));
    lemma_ranked_indices(keys, results.len());
    let order = ranked_indices(keys, results.len());
    if i < j {
        assert(precedes(keys, order[i], order[j]));
    }
}

/// The window of a ranking is in order of score: no result has a lower
/// score key than one that follows it.
pub proof fn lemma_page_sorted(
    results: Seq<SearchResultModel>,
    offset: int,
    limit: int,
    i: int,
    j: int,
)
    requires
        0 <= offset,
        0 <= limit,
        0 <= i <= j < page(ranked_results(results), offset, limit).len(),
    ensures
        single_key(page(ranked_results(results), offset, limit)[i].score) >= single_key(
            page(ranked_results(results), offset, limit)[j].score,
        ),
{
    let start = page_start(results.len() as int, offset);
    lemma_ranked_results_sorted(results, start + i, start + j);
}

/// Two windows of the same length, the second asked for at the offset where
/// the first ends, share no document, where no two of the results that
/// were given share an identifier.
pub proof fn lemma_pages_disjoint(
    results: Seq<SearchResultModel>,
    offset: int,
    limit: int,
    i: int,
    j: int,
)
    requires
        0 <= offset,
        0 <= limit,
        forall|a: int, b: int|
            0 <= a < b < results.len() ==> (#[trigger] results[a]).document.id != (
            #[trigger] results[b]).document.id,
        0 <= i < page(ranked_results(results), offset, limit).len(),
        0 <= j < page(ranked_results(results), offset + limit, limit).len(),
    ensures
        page(ranked_results(results), offset, limit)[i].document.id != page(
            ranked_results(results),
            offset + limit,
            limit,
        )[j].document.id,
{
    let keys = score_keys(result_scores(results));
    let order = ranked_indices(keys, results.len());
    lemma_ranked_results_permutation(results);
    lemma_ranked_indices(keys, results.len());
    let first = page_start(results.len() as int, offset) + i;
    let second = page_start(results.len() as int, offset + limit) + j;
    assert(first < second);
    assert(order[first] != order[second]);
    let a = order[first];
    let b = order[second];
    if a < b {
        assert(results[a].document.id != results[b].document.id);
    } else {
        assert(results[b].document.id != results[a].document.id);
    }
}

/// A ranking holds every result that was given, and each of them once: its
/// entries are the results at distinct positions.
pub proof fn lemma_ranked_results_permutation(results: Seq<SearchResultModel>)
    ensures
        ranked_results(results).len() == results.len(),
        forall|x: int|
            0 <= x < results.len() ==> ranked_results(results).contains(#[trigger] results[x]),
        forall|i: int, j: int|
            #![trigger ranked_indices(score_keys(result_scores(results)), results.len())[i], ranked_indices(score_keys(result_scores(results)), results.len())[j]]
            0 <= i < j < results.len() ==> ranked_indices(
                score_keys(result_scores(results)),
                results.len(),
            )[i] != ranked_indices(score_keys(result_scores(results)), results.len())[j],
{
    let keys = score_keys(result_scores(results));
    lemma_ranked_indices(keys, results.len());
    let order = ranked_indices(keys, results.len());
    assert forall|x: int| 0 <= x < results.len() implies ranked_results(results).contains(
        #[trigger] results[x],
    ) by {
        assert(order.contains(x));
        let k = choose|k: int| 0 <= k < order.len() && order[k] == x;
        assert(ranked_results(results)[k] == results[x]);
    }
    assert forall|i: int, j: int| 0 <= i < j < results.len() implies order[i] != order[j] by {
        assert(precedes(keys, order[i], order[j]));
    }
}

/// Two windows of the same length, the second asked for at the offset where
/// the first ends: the second starts at the position where the first stops,
/// so they do not overlap, and together they are the window of twice the
/// length, which stops where the best `offset + 2 * limit` results stop.
pub proof fn lemma_pages_adjoin<T>(ranking: Seq<T>, offset: int, limit: int)
    requires
        0 <= offset,
        0 <= limit,
    ensures
        page(ranking, offset, limit) + page(ranking, offset + limit, limit) == page(
            ranking,
            offset,
            2 * limit,
        ),
        page_start(ranking.len() as int, offset + limit) == page_end(
            ranking.len() as int,
            offset,
            limit,
        ),
        page_end(ranking.len() as int, offset, 2 * limit) == page_end(
            ranking.len() as int,
            0,
            offset + 2 * limit,
        ),
{
    assert(page(ranking, offset, limit) + page(ranking, offset + limit, limit) =~= page(
        ranking,
        offset,
        2 * limit,
    ));
}

} // verus!
