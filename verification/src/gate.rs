//! The retrieval gate: from the hits of a search to the decision whether the
//! best of them is relevant enough to use.
//!
//! Only the best hit takes part in the decision, and it is accepted only when
//! its score is strictly above the threshold: a hit exactly at the threshold
//! is turned down. That nothing is relevant is an ordinary outcome, not an
//! error; errors are kept for an index that cannot answer.

use vstd::prelude::*;
use crate::index::{
    collection_position,
    has_collection,
    hits_of,
    is_search_answer,
    PointView,
    SearchResult,
    VectorIndex,
};
use crate::model::{text_field, RetrievalError};
use crate::ranking::{is_ranking, precedes, ranks_of};
use crate::score::Score;

verus! {

/// The outcome of routing a query.
#[derive(Debug)]
pub struct RoutingDecision {
    pub matched: bool,
    pub topic: Option<String>,
    pub score: Option<Score>,
}

/// The ranks of the scores of the hits, hit by hit.
pub open spec fn hit_ranks(results: Seq<SearchResult>) -> Seq<int> {
    Seq::new(results.len(), |i: int| results[i].score.rank())
}

/// The position of the highest rank, the first one where several are equal;
/// 0 for an empty sequence.
pub open spec fn best_of(ranks: Seq<int>) -> int
    decreases ranks.len(),
{
    if ranks.len() <= 1 {
        0
    } else {
        let before = best_of(ranks.drop_last());
        if ranks.last() > ranks[before] {
            ranks.len() - 1
        } else {
            before
        }
    }
}

/// `best_of` is a position of a non-empty sequence, no rank is above the one
/// it holds, and every rank before it is below.
pub proof fn lemma_best_of(ranks: Seq<int>)
    requires
        ranks.len() > 0,
    ensures
        0 <= best_of(ranks) < ranks.len(),
        forall|j: int| 0 <= j < ranks.len() ==> (#[trigger] ranks[j]) <= ranks[best_of(ranks)],
        forall|j: int| 0 <= j < best_of(ranks) ==> (#[trigger] ranks[j]) < ranks[best_of(ranks)],
    decreases ranks.len(),
{
    if ranks.len() > 1 {
        let shorter = ranks.drop_last();
        lemma_best_of(shorter);
        assert forall|j: int| 0 <= j < ranks.len() implies (#[trigger] ranks[j]) <= ranks[best_of(
            ranks,
        )] by {
            if j < shorter.len() {
                assert(shorter[j] == ranks[j]);
            }
        }
        assert forall|j: int| 0 <= j < best_of(ranks) implies (#[trigger] ranks[j]) < ranks[best_of(
            ranks,
        )] by {
            assert(shorter[j] == ranks[j]);
        }
    }
}

/// Whether some hit scores strictly above the threshold.
pub open spec fn clears(results: Seq<SearchResult>, threshold: Score) -> bool {
    results.len() > 0 && results[best_of(hit_ranks(results))].score.rank() > threshold.rank()
}

/// What an optional string holds.
pub open spec fn option_text(s: Option<String>) -> Option<Seq<char>> {
    match s {
        Some(s) => Some(s@),
        None => None,
    }
}

/// Whether `decision` is the decision that the hits and the threshold call
/// for: a match, with the score of the best hit and the text of its `topic`
/// field, exactly when that score is strictly above the threshold; otherwise
/// no match, no topic and no score.
pub open spec fn is_decision(results: Seq<SearchResult>, threshold: Score, decision: RoutingDecision) -> bool {
    let best = results[best_of(hit_ranks(results))];
    &&& decision.matched == clears(results, threshold)
    &&& decision.matched ==> decision.score == Some(best.score) && option_text(decision.topic)
        == text_field(best.document@, "topic"@)
    &&& !decision.matched ==> decision.score is None && decision.topic is None
}

/// The position of the best hit; 0 when there is none.
fn best_position(results: &Vec<SearchResult>) -> (best: usize)
    ensures
        best == best_of(hit_ranks(results@)),
        results.len() > 0 ==> best < results.len(),
{
    let ghost ranks = hit_ranks(results@);
    let mut best: usize = 0;
    let mut i: usize = 1;
    if results.len() == 0 {
        return 0;
    }
    assert(ranks.take(1).len() == 1);
    while i < results.len()
        invariant
            1 <= i <= results.len(),
            best < i,
            ranks == hit_ranks(results@),
            best == best_of(ranks.take(i as int)),
        decreases results.len() - i,
    {
        proof {
            assert(ranks.take(i + 1).drop_last() =~= ranks.take(i as int));
            assert(ranks.take(i + 1).last() == ranks[i as int]);
            assert(ranks.take(i + 1)[best as int] == ranks[best as int]);
        }
        if results[i].score.gt(&results[best].score) {
            best = i;
        }
        i += 1;
    }
    assert(ranks.take(results.len() as int) =~= ranks);
    best
}

/// Decides whether the hits hold something relevant enough.
pub fn decide(results: &Vec<SearchResult>, threshold: Score) -> (decision: RoutingDecision)
    ensures
        is_decision(results@, threshold, decision),
{
    if results.len() == 0 {
        return RoutingDecision { matched: false, topic: None, score: None };
    }
    let best = best_position(results);
    let hit = &results[best];
    if hit.score.gt(&threshold) {
        RoutingDecision { matched: true, topic: hit.document.text_of("topic"), score: Some(hit.score) }
    } else {
        RoutingDecision { matched: false, topic: None, score: None }
    }
}

/// The text that the best hit stores under `field`; `None` when there is no
/// hit, or its document has no text under that name.
pub fn search_context(results: &Vec<SearchResult>, field: &str) -> (context: Option<String>)
    ensures
        results.len() == 0 ==> context is None,
        results.len() > 0 ==> option_text(context) == text_field(
            results[best_of(hit_ranks(results@))].document@,
            field@,
        ),
{
    if results.len() == 0 {
        return None;
    }
    let best = best_position(results);
    results[best].document.text_of(field)
}

/// Routes a query whose vector and scores are known: searches the collection
/// for the best `k` entries and decides on them. An index that cannot answer
/// gives the error of the search; hits that are not relevant enough give a
/// decision without a match.
pub fn route(
    index: &VectorIndex,
    collection: &str,
    query: &Vec<u64>,
    scores: &Vec<Score>,
    k: usize,
    threshold: Score,
) -> (res: Result<RoutingDecision, RetrievalError>)
    ensures
        !has_collection(index@, collection@) ==> res is Err && res->Err_0 is NotFound,
        has_collection(index@, collection@) ==> {
            let c = index@[collection_position(index@, collection@)];
            &&& query@.len() != c.dimension ==> res is Err && res->Err_0
                == (RetrievalError::DimensionMismatch {
                expected: c.dimension as usize,
                actual: query.len(),
            })
            &&& query@.len() == c.dimension && scores@.len() != c.points.len() ==> res is Err
                && res->Err_0 is InvalidInput
            &&& query@.len() == c.dimension && scores@.len() == c.points.len() ==> res is Ok
                && exists|results: Seq<SearchResult>| #[trigger]
                is_search_answer(c.points, scores@, k as nat, true, results) && is_decision(
                    results,
                    threshold,
                    res->Ok_0,
                )
        },
{
    match index.search(collection, query, scores, k, true) {
        Ok(results) => Ok(decide(&results, threshold)),
        Err(e) => Err(e),
    }
}

/// The threshold is strict: hits whose best score is exactly the threshold
/// give no match, and hits whose best score is above it give a match.
pub proof fn law_threshold_is_strict(
    results: Seq<SearchResult>,
    threshold: Score,
    decision: RoutingDecision,
)
    requires
        results.len() > 0,
        is_decision(results, threshold, decision),
    ensures
        results[best_of(hit_ranks(results))].score.rank() == threshold.rank() ==> !decision.matched,
        results[best_of(hit_ranks(results))].score.rank() > threshold.rank() ==> decision.matched,
        decision.matched <==> exists|i: int|
            0 <= i < results.len() && (#[trigger] results[i]).score.rank() > threshold.rank(),
{
    let ranks = hit_ranks(results);
    lemma_best_of(ranks);
    let best = best_of(ranks);
    if decision.matched {
        assert(results[best].score.rank() > threshold.rank());
    } else {
        assert forall|i: int| 0 <= i < results.len() implies !((#[trigger] results[i]).score.rank()
            > threshold.rank()) by {
            assert(ranks[i] <= ranks[best]);
        }
    }
}

/// A ranking of at least one position begins with the best one: the first
/// position of the highest rank.
pub proof fn lemma_ranking_begins_with_best(ranks: Seq<int>, k: nat, order: Seq<usize>)
    requires
        is_ranking(ranks, k, order),
        k >= 1,
        0 < ranks.len() <= usize::MAX,
    ensures
        order.len() >= 1,
        order[0] == best_of(ranks),
{
    lemma_best_of(ranks);
    let best = best_of(ranks);
    let first = order[0] as int;
    if first != best {
        if order.contains(best as usize) {
            let j = choose|j: int| 0 <= j < order.len() && order[j] == best as usize;
            assert(j != 0);
            assert(precedes(ranks, order[0] as int, order[j] as int));
        } else {
            assert(precedes(ranks, order[k - 1] as int, best));
            if k > 1 {
                assert(precedes(ranks, order[0] as int, order[k - 1] as int));
            }
        }
        assert(precedes(ranks, first, best));
        assert(ranks[first] <= ranks[best]);
    }
}

/// A search for at least one entry and the decision on its hits come to
/// this: the entry with the highest score — the earliest one, where several
/// have it — is accepted exactly when its score is strictly above the
/// threshold, and the decision then carries its score and its topic.
pub proof fn law_route_follows_best_entry(
    points: Seq<PointView>,
    scores: Seq<Score>,
    k: nat,
    results: Seq<SearchResult>,
    threshold: Score,
    decision: RoutingDecision,
)
    requires
        k >= 1,
        points.len() == scores.len(),
        0 < scores.len() <= usize::MAX,
        is_search_answer(points, scores, k, true, results),
        is_decision(results, threshold, decision),
    ensures
        decision.matched <==> scores[best_of(ranks_of(scores))].rank() > threshold.rank(),
        decision.matched ==> decision.score == Some(scores[best_of(ranks_of(scores))])
            && option_text(decision.topic) == text_field(
            points[best_of(ranks_of(scores))].document,
            "topic"@,
        ),
{
    let ranks = ranks_of(scores);
    let order = choose|order: Seq<usize>| #[trigger]
        is_ranking(ranks, k, order) && hits_of(points, scores, true, order, results);
    lemma_ranking_begins_with_best(ranks, k, order);
    lemma_best_of(ranks);
    let best = best_of(ranks);
    let hits = hit_ranks(results);
    lemma_best_of(hits);
    assert(results[0].score == scores[best]);
    assert forall|j: int| 0 <= j < hits.len() implies (#[trigger] hits[j]) <= hits[0] by {
        assert(results[j].score == scores[order[j] as int]);
        assert(ranks[order[j] as int] <= ranks[best]);
    }
    if best_of(hits) != 0 {
        assert(hits[0] < hits[best_of(hits)]);
    }
}

/// Without entries there is nothing to accept: a search of an empty
/// collection gives no hit, and the decision is no match.
pub proof fn law_route_of_nothing(
    points: Seq<PointView>,
    scores: Seq<Score>,
    k: nat,
    results: Seq<SearchResult>,
    threshold: Score,
    decision: RoutingDecision,
)
    requires
        scores.len() == 0 || k == 0,
        is_search_answer(points, scores, k, true, results),
        is_decision(results, threshold, decision),
    ensures
        results.len() == 0,
        !decision.matched,
{
}

} // verus!
