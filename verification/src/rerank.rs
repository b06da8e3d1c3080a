//! Re-ranking of merged search results.

use crate::config::weights::RerankConfig;
use crate::engine::{EngineSearchResult, SearchResult};
use crate::number::Binary64;
use crate::order::{
    arranged, descending, lemma_arranged_multiset, lemma_descending, lemma_falling_keys, precedes,
    sort_descending,
};
use crate::relevance::{
    counts, query_words, relevance, score_relevance, text_trigrams, WordMatch,
};
use crate::reputation::RerankData;
use crate::source_identity::{identity, Identity, IdentityValue};
use crate::text::{words, Separator};
use crate::vocabulary::{
    score_l2, text_vocabulary, L2Features, VocabularyCounts, MIN_WORDS,
};
use crate::web::parts_of;
use vstd::prelude::*;

verus! {

/// What the new score of a result is computed from.
#[derive(Clone, Debug, PartialEq, Eq)]
pub struct Signals {
    /// The score that the result came with.
    pub upstream: Binary64,
    /// The greatest score that any result came with.
    pub max_upstream: Binary64,
    /// Who publishes the result.
    pub identity: Identity,
    /// Whom the result is written for, where its description is long enough to
    /// tell.
    pub vocabulary: Option<L2Features>,
    /// How much of each word of the query the result has. Where this is empty,
    /// the query tells nothing.
    pub relevance: Vec<WordMatch>,
}

/// The counts of a snippet that is long enough to be judged.
pub open spec fn snippet_counts(text: Seq<char>) -> Option<VocabularyCounts> {
    if words(text, Separator::Space).len() >= MIN_WORDS {
        Some(text_vocabulary(text))
    } else {
        None
    }
}

/// What is known of the source of a result; nothing where it is blocked.
pub open spec fn source(data: &RerankData, url: Seq<char>) -> Option<IdentityValue> {
    identity(data, parts_of(url))
}

impl Signals {
    /// The counts of the snippet.
    pub open spec fn vocabulary_counts(self) -> Option<VocabularyCounts> {
        match self.vocabulary {
            Some(features) => Some(features@),
            None => None,
        }
    }

    /// Whether these are the signals of `result` for `query`, where the
    /// greatest score is `max`.
    pub open spec fn describe(
        self,
        data: &RerankData,
        query: Seq<char>,
        max: Binary64,
        result: SearchResult<EngineSearchResult>,
    ) -> bool {
        &&& self.upstream == result.score
        &&& self.max_upstream == max
        &&& source(data, result.result.url@) == Some(self.identity@)
        &&& self.vocabulary_counts() == snippet_counts(result.result.description@)
        &&& counts(self.relevance@) == relevance(
            query_words(query),
            text_trigrams(result.result.title@),
            text_trigrams(result.result.description@),
        )
    }
}

/// The greatest score of the results, or zero where none is greater.
pub open spec fn max_score<R>(results: Seq<SearchResult<R>>) -> Binary64
    decreases results.len(),
{
    if results.len() == 0 {
        Binary64::spec_zero()
    } else {
        max_score(results.drop_last()).spec_max(results.last().score)
    }
}

/// Finds the greatest score.
fn find_max_score<R>(results: &Vec<SearchResult<R>>) -> (r: Binary64)
    ensures
        r == max_score(results@),
{
    let mut max = Binary64::zero();
    for i in 0..results.len()
        invariant
            max == max_score(results@.take(i as int)),
    {
        assert(results@.take(i + 1).drop_last() =~= results@.take(i as int));
        max = max.max(results[i].score);
    }
    assert(results@.take(results@.len() as int) =~= results@);
    max
}

/// Gathers the signals of a result; nothing comes of one whose source is
/// blocked.
pub fn signals_of(
    data: &RerankData,
    query: &str,
    max: Binary64,
    result: &SearchResult<EngineSearchResult>,
) -> (r: Option<Signals>)
    ensures
        match r {
            Some(signals) => signals.describe(data, query@, max, *result),
            None => source(data, result.result.url@) is None,
        },
{
    match data.score_l1(result.result.url.as_str()) {
        Some(identity) => Some(
            Signals {
                upstream: result.score,
                max_upstream: max,
                identity,
                vocabulary: score_l2(result.result.description.as_str()),
                relevance: score_relevance(
                    query,
                    result.result.title.as_str(),
                    result.result.description.as_str(),
                ),
            },
        ),
        None => None,
    }
}

/// A result with another score.
pub open spec fn with_score<R>(r: SearchResult<R>, score: Binary64) -> SearchResult<R> {
    SearchResult { result: r.result, engines: r.engines, score }
}

/// The results that have a new score, with that score, in their order.
pub open spec fn rescored<R>(
    results: Seq<SearchResult<R>>,
    scores: Seq<Option<Binary64>>,
) -> Seq<SearchResult<R>>
    decreases results.len(),
{
    if results.len() == 0 {
        Seq::empty()
    } else {
        let before = rescored(results.drop_last(), scores.drop_last());
        match scores.last() {
            Some(score) => before.push(with_score(results.last(), score)),
            None => before,
        }
    }
}

/// The places of the scores in the order of all numbers.
pub open spec fn places<R>(results: Seq<SearchResult<R>>) -> Seq<int> {
    results.map_values(|r: SearchResult<R>| r.score.place())
}

/// The results from the greatest score down, equal ones in their order.
pub open spec fn ranked<R>(results: Seq<SearchResult<R>>) -> Seq<SearchResult<R>> {
    arranged(results, descending(places(results)))
}

/// Gives the results their new scores, drops those that have none, and ranks
/// the rest from the greatest score down.
pub fn apply_scores<R>(
    results: Vec<SearchResult<R>>,
    scores: &Vec<Option<Binary64>>,
) -> (r: Vec<SearchResult<R>>)
    requires
        results@.len() == scores@.len(),
    ensures
        r@ == ranked(rescored(results@, scores@)),
{
    let mut kept: Vec<SearchResult<R>> = Vec::new();
    let mut keys: Vec<i128> = Vec::new();
    let mut at: usize = 0;
    let count = scores.len();
    for result in it: results
        invariant
            it.seq() == results@,
            count == scores@.len(),
            at == it.index(),
            results@.len() == scores@.len(),
            kept@ == rescored(results@.take(it.index() as int), scores@.take(it.index() as int)),
            keys@.map_values(|k: i128| k as int) == places(kept@),
    {
        let ghost i = it.index() as int;
        assert(results@.take(i + 1).drop_last() =~= results@.take(i));
        assert(scores@.take(i + 1).drop_last() =~= scores@.take(i));
        let ghost before = keys@.map_values(|k: i128| k as int);
        let ghost kept_before = kept@;
        if let Some(score) = scores[at] {
            keys.push(score.rank() as i128);
            kept.push(SearchResult { result: result.result, engines: result.engines, score });
            assert(keys@.map_values(|k: i128| k as int) =~= before.push(score.place()));
            assert(places(kept@) =~= places(kept_before).push(score.place()));
        }
        at = at + 1;
    }
    assert(results@.take(results@.len() as int) =~= results@);
    assert(scores@.take(results@.len() as int) =~= scores@);
    assert(keys@.map_values(|k: i128| k as int).len() == keys@.len());
    sort_descending(kept, &keys)
}

/// Whether `scores` are what `combine` gives the results: none for a result
/// whose source is blocked, and for any other what it returns for its signals.
pub open spec fn is_scoring<F: Fn(&RerankConfig, &Signals) -> Binary64>(
    combine: F,
    config: &RerankConfig,
    data: &RerankData,
    query: Seq<char>,
    results: Seq<SearchResult<EngineSearchResult>>,
    scores: Seq<Option<Binary64>>,
) -> bool {
    &&& scores.len() == results.len()
    &&& forall|i: int|
        0 <= i < results.len() ==> match #[trigger] scores[i] {
            Some(score) => exists|signals: Signals| #[trigger]
                signals.describe(data, query, max_score(results), results[i]) && combine.ensures(
                    (config, &signals),
                    score,
                ),
            None => source(data, results[i].result.url@) is None,
        }
}

/// The results whose source is not blocked, in their order.
pub open spec fn unblocked(
    data: &RerankData,
    results: Seq<SearchResult<EngineSearchResult>>,
) -> Seq<SearchResult<EngineSearchResult>> {
    results.filter(
        |r: SearchResult<EngineSearchResult>| source(data, r.result.url@) is Some,
    )
}

/// Whether `after` are the re-ranked results of `before`. Where none came with
/// a score above zero there is nothing to rank by, and only those whose source
/// is blocked leave.
pub open spec fn is_reranked<F: Fn(&RerankConfig, &Signals) -> Binary64>(
    combine: F,
    config: &RerankConfig,
    data: &RerankData,
    query: Seq<char>,
    before: Seq<SearchResult<EngineSearchResult>>,
    after: Seq<SearchResult<EngineSearchResult>>,
) -> bool {
    if max_score(before).spec_is_zero() {
        after == unblocked(data, before)
    } else {
        exists|scores: Seq<Option<Binary64>>|
            #![trigger rescored(before, scores)]
            is_scoring(combine, config, data, query, before, scores) && after == ranked(
                rescored(before, scores),
            )
    }
}

/// Removes the results whose source is blocked.
pub fn remove_blocked(data: &RerankData, results: Vec<SearchResult<EngineSearchResult>>) -> (r: Vec<
    SearchResult<EngineSearchResult>,
>)
    ensures
        r@ == unblocked(data, results@),
{
    let ghost keeps = |r: SearchResult<EngineSearchResult>|
        source(data, r.result.url@) is Some;
    let mut kept: Vec<SearchResult<EngineSearchResult>> = Vec::new();
    proof {
        reveal(Seq::filter);
        assert(results@.take(0) =~= Seq::empty());
    }
    for result in it: results
        invariant
            it.seq() == results@,
            keeps == (|r: SearchResult<EngineSearchResult>|
                source(data, r.result.url@) is Some),
            kept@ == results@.take(it.index() as int).filter(keeps),
    {
        proof {
            reveal(Seq::filter);
            let i = it.index() as int;
            assert(results@.take(i + 1).drop_last() =~= results@.take(i));
            assert(results@.take(i + 1).last() == result);
        }
        if data.score_l1(result.result.url.as_str()).is_some() {
            kept.push(result);
        }
    }
    assert(results@.take(results@.len() as int) =~= results@);
    kept
}

/// Re-ranks search results: removes those whose source is blocked, gives each
/// other one the score that `combine` computes from its signals, and orders
/// them from the greatest score down.
///
/// Where no result came with a score above zero, the scores and the order stay.
pub fn rerank<F: Fn(&RerankConfig, &Signals) -> Binary64>(
    data: &RerankData,
    config: &RerankConfig,
    query: &str,
    results: &mut Vec<SearchResult<EngineSearchResult>>,
    combine: F,
)
    requires
        forall|signals: Signals| combine.requires((config, &signals)),
    ensures
        is_reranked(combine, config, data, query@, old(results)@, final(results)@),
        only_unblocked(data, old(results)@, final(results)@),
{
    let max = find_max_score(results);
    let mut all: Vec<SearchResult<EngineSearchResult>> = Vec::new();
    if max.is_zero() {
        std::mem::swap(results, &mut all);
        *results = remove_blocked(data, all);
        proof {
            law_exactly_the_unblocked_remain(
                combine,
                config,
                data,
                query@,
                old(results)@,
                results@,
            );
        }
        return ;
    }
    let mut scores: Vec<Option<Binary64>> = Vec::new();
    for i in 0..results.len()
        invariant
            results@ == old(results)@,
            max == max_score(results@),
            forall|signals: Signals| combine.requires((config, &signals)),
            scores@.len() == i,
            forall|j: int|
                0 <= j < i ==> match #[trigger] scores@[j] {
                    Some(score) => exists|signals: Signals| #[trigger]
                        signals.describe(data, query@, max, results@[j]) && combine.ensures(
                            (config, &signals),
                            score,
                        ),
                    None => source(data, results@[j].result.url@) is None,
                },
    {
        match signals_of(data, query, max, &results[i]) {
            Some(signals) => {
                let score = combine(config, &signals);
                scores.push(Some(score));
            },
            None => {
                scores.push(None);
            },
        }
    }
    std::mem::swap(results, &mut all);
    assert(is_scoring(combine, config, data, query@, all@, scores@));
    *results = apply_scores(all, &scores);
    proof {
        law_exactly_the_unblocked_remain(
            combine,
            config,
            data,
            query@,
            old(results)@,
            results@,
        );
    }
}

// --- Laws ---

/// The greatest score is a number, is not negative, is at least as great as
/// every score that is a number, and is one of the scores or zero.
pub proof fn law_max_score_is_greatest<R>(results: Seq<SearchResult<R>>)
    ensures
        !max_score(results).spec_is_nan(),
        max_score(results).place() >= 0,
        forall|i: int|
            0 <= i < results.len() && !results[i].score.spec_is_nan() ==> (
            #[trigger] results[i]).score.place() <= max_score(results).place(),
        max_score(results) == Binary64::spec_zero() || exists|i: int|
            0 <= i < results.len() && (#[trigger] results[i]).score == max_score(results),
    decreases results.len(),
{
    if results.len() > 0 {
        let head = results.drop_last();
        law_max_score_is_greatest(head);
        let n = results.len() - 1;
        assert forall|i: int|
            0 <= i < results.len() && !results[i].score.spec_is_nan() implies (
        #[trigger] results[i]).score.place() <= max_score(results).place() by {
            if i < n {
                assert(head[i] == results[i]);
            }
        }
        if max_score(results) != Binary64::spec_zero() {
            if max_score(results) == max_score(head) {
                let i = choose|i: int| 0 <= i < head.len() && head[i].score == max_score(head);
                assert(results[i].score == max_score(results));
            } else {
                assert(results[n].score == max_score(results));
            }
        }
    }
}

/// Ranked results stand from the greatest score down, and they are the results
/// that were there, each as often as it was.
pub proof fn law_ranked_is_sorted<R>(results: Seq<SearchResult<R>>)
    ensures
        forall|i: int, j: int|
            0 <= i < j < ranked(results).len() ==> (#[trigger] ranked(results)[i]).score.place() >= (
            #[trigger] ranked(results)[j]).score.place(),
        ranked(results).to_multiset() == results.to_multiset(),
{
    let keys = places(results);
    let order = descending(keys);
    lemma_descending(keys);
    assert forall|i: int, j: int| 0 <= i < j < ranked(results).len() implies (
    #[trigger] ranked(results)[i]).score.place() >= (#[trigger] ranked(results)[j]).score.place() by {
        assert(precedes(keys, order[i], order[j]));
        assert(keys[order[i]] == results[order[i]].score.place());
        assert(keys[order[j]] == results[order[j]].score.place());
    }
    lemma_arranged_multiset(results, order);
}

/// Results whose scores already fall keep their order: equal scores do not
/// change places, so that scoring in proportion to the upstream scores changes
/// nothing.
pub proof fn law_falling_scores_keep_order<R>(results: Seq<SearchResult<R>>)
    requires
        forall|i: int, j: int|
            0 <= i < j < results.len() ==> (#[trigger] results[i]).score.place() >= (
            #[trigger] results[j]).score.place(),
    ensures
        ranked(results) == results,
{
    let keys = places(results);
    assert forall|i: int, j: int| 0 <= i < j < keys.len() implies keys[i] >= keys[j] by {
        assert(keys[i] == results[i].score.place());
        assert(keys[j] == results[j].score.place());
    }
    lemma_falling_keys(results, keys);
}

/// Where nothing is blocked and the new scores only follow the upstream ones,
/// results that came in upstream order keep it.
pub proof fn law_upstream_order_is_kept<R>(
    results: Seq<SearchResult<R>>,
    scores: Seq<Option<Binary64>>,
)
    requires
        scores.len() == results.len(),
        forall|i: int| 0 <= i < scores.len() ==> (#[trigger] scores[i]) is Some,
        forall|i: int, j: int|
            0 <= i < j < results.len() ==> (#[trigger] results[i]).score.place() >= (
            #[trigger] results[j]).score.place(),
        forall|i: int, j: int|
            0 <= i < results.len() && 0 <= j < results.len() && results[i].score.place()
                >= results[j].score.place() ==> (#[trigger] scores[i])->0.place() >= (
            #[trigger] scores[j])->0.place(),
    ensures
        ranked(rescored(results, scores)) == Seq::new(
            results.len(),
            |i: int| with_score(results[i], scores[i]->0),
        ),
{
    let all = rescored(results, scores);
    lemma_all_scored(results, scores);
    assert forall|i: int, j: int| 0 <= i < j < all.len() implies (#[trigger] all[i]).score.place()
        >= (#[trigger] all[j]).score.place() by {
        assert(results[i].score.place() >= results[j].score.place());
        assert(scores[i]->0.place() >= scores[j]->0.place());
    }
    law_falling_scores_keep_order(all);
}

/// Where every result has a new score, every result is left, in its position.
proof fn lemma_all_scored<R>(results: Seq<SearchResult<R>>, scores: Seq<Option<Binary64>>)
    requires
        scores.len() == results.len(),
        forall|i: int| 0 <= i < scores.len() ==> (#[trigger] scores[i]) is Some,
    ensures
        rescored(results, scores) == Seq::new(
            results.len(),
            |i: int| with_score(results[i], scores[i]->0),
        ),
    decreases results.len(),
{
    let expected = Seq::new(results.len(), |i: int| with_score(results[i], scores[i]->0));
    if results.len() == 0 {
        assert(expected =~= rescored(results, scores));
    } else {
        let head = results.drop_last();
        let marks = scores.drop_last();
        assert forall|i: int| 0 <= i < marks.len() implies (#[trigger] marks[i]) is Some by {
            assert(marks[i] == scores[i]);
        }
        lemma_all_scored(head, marks);
        assert(scores[scores.len() - 1] is Some);
        assert(rescored(results, scores) =~= expected);
    }
}

/// What is left after scoring are exactly the results with a score, with that
/// score and otherwise as they were.
pub proof fn law_rescored_are_the_scored<R>(
    results: Seq<SearchResult<R>>,
    scores: Seq<Option<Binary64>>,
    r: SearchResult<R>,
)
    requires
        scores.len() == results.len(),
    ensures
        rescored(results, scores).contains(r) <==> exists|i: int|
            0 <= i < results.len() && (#[trigger] scores[i]) == Some(r.score) && r
                == with_score(results[i], r.score),
    decreases results.len(),
{
    if results.len() > 0 {
        let head = results.drop_last();
        let marks = scores.drop_last();
        let n = results.len() - 1;
        law_rescored_are_the_scored(head, marks, r);
        let before = rescored(head, marks);
        let after = rescored(results, scores);
        if before.contains(r) {
            let i = choose|i: int|
                0 <= i < head.len() && (#[trigger] marks[i]) == Some(r.score) && r
                    == with_score(head[i], r.score);
            assert(scores[i] == marks[i] && results[i] == head[i]);
            let k = choose|k: int| 0 <= k < before.len() && before[k] == r;
            assert(after[k] == r);
        }
        if after.contains(r) {
            let k = choose|k: int| 0 <= k < after.len() && after[k] == r;
            if k < before.len() {
                assert(before[k] == r);
            } else {
                assert(scores[n] == Some(r.score));
            }
        }
        if exists|i: int|
            0 <= i < results.len() && (#[trigger] scores[i]) == Some(r.score) && r
                == with_score(results[i], r.score) {
            let i = choose|i: int|
                0 <= i < results.len() && (#[trigger] scores[i]) == Some(r.score) && r
                    == with_score(results[i], r.score);
            if i < n {
                assert(marks[i] == scores[i] && head[i] == results[i]);
            } else {
                assert(after[before.len() as int] == r);
            }
        }
    }
}

/// Whether no result of `after` has a blocked source, and every result of
/// `before` whose source is not blocked is among them with everything but its
/// score, as many times as there are such results.
pub open spec fn only_unblocked(
    data: &RerankData,
    before: Seq<SearchResult<EngineSearchResult>>,
    after: Seq<SearchResult<EngineSearchResult>>,
) -> bool {
    &&& forall|k: int|
        0 <= k < after.len() ==> source(data, (#[trigger] after[k]).result.url@) is Some
    &&& forall|i: int|
        0 <= i < before.len() && source(data, before[i].result.url@) is Some ==> exists|
            score: Binary64,
        | #[trigger] after.contains(with_score(#[trigger] before[i], score))
    &&& after.len() == unblocked(data, before).len()
}

/// After re-ranking, whatever the list and its scores, no result of a blocked
/// source is left, and every other result is still there with everything but
/// its score.
pub proof fn law_exactly_the_unblocked_remain<F: Fn(&RerankConfig, &Signals) -> Binary64>(
    combine: F,
    config: &RerankConfig,
    data: &RerankData,
    query: Seq<char>,
    before: Seq<SearchResult<EngineSearchResult>>,
    after: Seq<SearchResult<EngineSearchResult>>,
)
    requires
        is_reranked(combine, config, data, query, before, after),
    ensures
        only_unblocked(data, before, after),
{
    if max_score(before).spec_is_zero() {
        let keeps = |r: SearchResult<EngineSearchResult>|
            source(data, r.result.url@) is Some;
        assert forall|k: int| 0 <= k < after.len() implies source(
            data,
            (#[trigger] after[k]).result.url@,
        ) is Some by {
            before.lemma_filter_pred(keeps, k);
        }
        assert forall|i: int|
            0 <= i < before.len() && source(data, before[i].result.url@) is Some implies exists|
            score: Binary64,
        | #[trigger]
            after.contains(with_score(#[trigger] before[i], score)) by {
            before.lemma_filter_contains(keeps, i);
            assert(with_score(before[i], before[i].score) == before[i]);
        }
    } else {
        let scores = choose|scores: Seq<Option<Binary64>>|
            #![trigger rescored(before, scores)]
            is_scoring(combine, config, data, query, before, scores) && after == ranked(
                rescored(before, scores),
            );
        lemma_scored_are_unblocked(combine, config, data, query, before, scores);
    }
}

/// Scored results are exactly the unblocked ones.
proof fn lemma_scored_are_unblocked<F: Fn(&RerankConfig, &Signals) -> Binary64>(
    combine: F,
    config: &RerankConfig,
    data: &RerankData,
    query: Seq<char>,
    results: Seq<SearchResult<EngineSearchResult>>,
    scores: Seq<Option<Binary64>>,
)
    requires
        is_scoring(combine, config, data, query, results, scores),
    ensures
        only_unblocked(data, results, ranked(rescored(results, scores))),
{
    broadcast use vstd::seq_lib::group_to_multiset_ensures;

    let left = rescored(results, scores);
    law_ranked_is_sorted(left);
    assert forall|i: int| 0 <= i < results.len() implies (#[trigger] scores[i] is Some <==> source(
        data,
        results[i].result.url@,
    ) is Some) by {
        if let Some(score) = scores[i] {
            let signals = choose|signals: Signals| #[trigger]
                signals.describe(data, query, max_score(results), results[i]) && combine.ensures(
                    (config, &signals),
                    score,
                );
            assert(source(data, results[i].result.url@) == Some(signals.identity@));
        }
    }
    assert forall|k: int| 0 <= k < ranked(left).len() implies source(
        data,
        (#[trigger] ranked(left)[k]).result.url@,
    ) is Some by {
        let r = ranked(left)[k];
        assert(ranked(left).to_multiset().count(r) > 0);
        assert(left.contains(r));
        law_rescored_are_the_scored(results, scores, r);
        let i = choose|i: int|
            0 <= i < results.len() && (#[trigger] scores[i]) == Some(r.score) && r
                == with_score(results[i], r.score);
        assert(scores[i] is Some);
    }
    assert forall|i: int|
        0 <= i < results.len() && source(data, results[i].result.url@) is Some implies exists|
        score: Binary64,
    | #[trigger]
        ranked(left).contains(with_score(#[trigger] results[i], score)) by {
        assert(scores[i] is Some);
        let score = scores[i]->0;
        let r = with_score(results[i], score);
        law_rescored_are_the_scored(results, scores, r);
        assert(left.contains(r));
        assert(left.to_multiset().count(r) > 0);
        assert(ranked(left).contains(r));
    }
    lemma_as_many_scored(data, results, scores);
    assert(ranked(left).len() == left.len()) by {
        assert(ranked(left).to_multiset().len() == left.to_multiset().len());
    }
}

/// As many results are scored as are unblocked.
proof fn lemma_as_many_scored(
    data: &RerankData,
    results: Seq<SearchResult<EngineSearchResult>>,
    scores: Seq<Option<Binary64>>,
)
    requires
        scores.len() == results.len(),
        forall|i: int|
            0 <= i < results.len() ==> (#[trigger] scores[i] is Some <==> source(
                data,
                results[i].result.url@,
            ) is Some),
    ensures
        rescored(results, scores).len() == unblocked(data, results).len(),
    decreases results.len(),
{
    reveal(Seq::filter);
    if results.len() > 0 {
        let head = results.drop_last();
        let marks = scores.drop_last();
        assert forall|i: int| 0 <= i < head.len() implies (#[trigger] marks[i] is Some <==> source(
            data,
            head[i].result.url@,
        ) is Some) by {
            assert(marks[i] == scores[i] && head[i] == results[i]);
        }
        lemma_as_many_scored(data, head, marks);
        assert(scores[scores.len() - 1] is Some <==> source(
            data,
            results[results.len() - 1].result.url@,
        ) is Some);
    }
}

} // verus!
