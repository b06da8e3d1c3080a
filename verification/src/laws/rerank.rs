//! Laws of the re-ranking of results.

use crate::config::weights::RerankConfig;
use crate::engine::{EngineSearchResult, SearchResult};
use crate::laws::relevance::{
    law_every_telling_word_is_counted, law_three_bytes_make_a_trigram, tells, telling_before,
};
use crate::laws::vocabulary::{is_capitalized, law_words_are_counted};
use crate::number::Binary64;
use crate::order::{descending, lemma_descending, precedes};
use crate::relevance::{
    law_ascii_is_lowered, law_containment_extremes, law_quoting_text_contains_query, query_words,
    text_trigrams,
};
use crate::reputation::RerankData;
use crate::rerank::{
    is_reranked, law_ranked_is_sorted, law_rescored_are_the_scored, max_score, places, ranked,
    rescored, source, unblocked, with_score, Signals,
};
use crate::source_identity::identity;
use crate::text::{total_len, words, Separator};
use crate::unicode::{ascii_lowercase, lowered};
use crate::web::parts_of;
use vstd::prelude::*;
use vstd::utf8::is_ascii_chars;

verus! {

// --- Signals ---

/// What a result is scored by: the score it came with, the greatest score of
/// all, and what its URL says of its source.
pub proof fn law_signals_of_the_source(
    signals: Signals,
    data: &RerankData,
    query: Seq<char>,
    max: Binary64,
    result: SearchResult<EngineSearchResult>,
)
    requires
        signals.describe(data, query, max, result),
    ensures
        signals.upstream == result.score,
        signals.max_upstream == max,
        identity(data, parts_of(result.result.url@)) == Some(signals.identity@),
{
}

/// The vocabulary is that of the description, where it has three words.
pub proof fn law_signals_of_the_description(
    signals: Signals,
    data: &RerankData,
    query: Seq<char>,
    max: Binary64,
    result: SearchResult<EngineSearchResult>,
)
    requires
        signals.describe(data, query, max, result),
    ensures
        ({
            let list = words(result.result.description@, Separator::Space);
            &&& signals.vocabulary is Some <==> list.len() >= 3
            &&& signals.vocabulary matches Some(features) ==> {
                &&& features.words == list.len()
                &&& features.capitalized == Set::new(|i: int| is_capitalized(list, i)).len()
                &&& features.long == Set::new(
                    |i: int| 0 <= i < list.len() && list[i].len() >= 8,
                ).len()
                &&& features.unique == Set::new(
                    |low: Seq<char>|
                        exists|i: int| 0 <= i < list.len() && lowered(#[trigger] list[i]) == low,
                ).len()
                &&& features.chars == total_len(list)
            }
        }),
{
    law_words_are_counted(result.result.description@);
    if let Some(features) = signals.vocabulary {
        assert(signals.vocabulary_counts() == Some(features@));
    }
}

/// Every word of the query that has trigrams is compared with the title and the
/// description of the result, in the order of the query.
pub proof fn law_signals_of_the_query(
    signals: Signals,
    data: &RerankData,
    query: Seq<char>,
    max: Binary64,
    result: SearchResult<EngineSearchResult>,
    i: int,
)
    requires
        signals.describe(data, query, max, result),
    ensures
        ({
            let list = words(query, Separator::Space);
            let sets = list.map_values(|word: Seq<char>| text_trigrams(word));
            &&& signals.relevance@.len() == telling_before(sets, sets.len() as int)
            &&& 0 <= i < list.len() && text_trigrams(list[i]).len() > 0 ==> {
                let k = telling_before(sets, i) as int;
                &&& 0 <= k < signals.relevance@.len()
                &&& signals.relevance@[k].trigrams == text_trigrams(list[i]).len()
                &&& signals.relevance@[k].in_title == text_trigrams(list[i]).intersect(
                    text_trigrams(result.result.title@),
                ).len()
                &&& signals.relevance@[k].in_description == text_trigrams(list[i]).intersect(
                    text_trigrams(result.result.description@),
                ).len()
            }
        }),
{
    let list = words(query, Separator::Space);
    let sets = list.map_values(|word: Seq<char>| text_trigrams(word));
    assert(sets =~= query_words(query));
    let title = text_trigrams(result.result.title@);
    let description = text_trigrams(result.result.description@);
    law_every_telling_word_is_counted(sets, title, description);
    let counted = crate::relevance::counts(signals.relevance@);
    assert(counted.len() == signals.relevance@.len());
    if 0 <= i < list.len() && text_trigrams(list[i]).len() > 0 {
        law_three_bytes_make_a_trigram(list[i]);
        if !tells(sets, i) {
            assert(sets[i] =~= Set::empty());
        }
        assert(tells(sets, i));
        let k = telling_before(sets, i) as int;
        assert(counted[k] == signals.relevance@[k]@);
    }
}

/// A word of the query that the title or the description quotes, in whatever
/// letter case, is found there with all of its trigrams.
pub proof fn law_quoted_words_are_found(
    signals: Signals,
    data: &RerankData,
    query: Seq<char>,
    max: Binary64,
    result: SearchResult<EngineSearchResult>,
    i: int,
    before: Seq<char>,
    quoted: Seq<char>,
    after: Seq<char>,
)
    requires
        signals.describe(data, query, max, result),
        0 <= i < words(query, Separator::Space).len(),
        is_ascii_chars(words(query, Separator::Space)[i]),
        words(query, Separator::Space)[i].len() >= 3,
        is_ascii_chars(before + quoted + after),
        ascii_lowercase(quoted) == ascii_lowercase(words(query, Separator::Space)[i]),
    ensures
        ({
            let sets = words(query, Separator::Space).map_values(
                |word: Seq<char>| text_trigrams(word),
            );
            let k = telling_before(sets, i) as int;
            &&& 0 <= k < signals.relevance@.len()
            &&& signals.relevance@[k].trigrams > 0
            &&& result.result.description@ == before + quoted + after
                ==> signals.relevance@[k].in_description == signals.relevance@[k].trigrams
            &&& result.result.title@ == before + quoted + after
                ==> signals.relevance@[k].in_title == signals.relevance@[k].trigrams
        }),
{
    let word = words(query, Separator::Space)[i];
    let text = before + quoted + after;
    law_quoting_text_contains_query(before, quoted, after, word);
    law_ascii_is_lowered(word);
    let low = ascii_lowercase(word);
    assert(is_ascii_chars(low)) by {
        assert forall|j: int| 0 <= j < low.len() implies '\0' <= #[trigger] low[j]
            <= '\u{7f}' by {
            assert(low[j] == crate::unicode::ascii_lower(word[j]));
            assert('\0' <= word[j] <= '\u{7f}');
        }
    }
    vstd::utf8::is_ascii_chars_encode_utf8(word);
    vstd::utf8::is_ascii_chars_encode_utf8(low);
    law_three_bytes_make_a_trigram(word);
    law_containment_extremes(text_trigrams(word), text_trigrams(text));
    law_signals_of_the_query(signals, data, query, max, result, i);
}

/// Results with the same title and description are as relevant to a query,
/// whatever their URLs and scores.
pub proof fn law_relevance_is_that_of_the_texts(
    a: Signals,
    b: Signals,
    data: &RerankData,
    query: Seq<char>,
    max: Binary64,
    one: SearchResult<EngineSearchResult>,
    other: SearchResult<EngineSearchResult>,
)
    requires
        a.describe(data, query, max, one),
        b.describe(data, query, max, other),
        one.result.title@ == other.result.title@,
        one.result.description@ == other.result.description@,
    ensures
        a.relevance@.len() == b.relevance@.len(),
        forall|k: int|
            0 <= k < a.relevance@.len() ==> (#[trigger] a.relevance@[k]).trigrams
                == b.relevance@[k].trigrams && a.relevance@[k].in_title == b.relevance@[k].in_title
                && a.relevance@[k].in_description == b.relevance@[k].in_description,
{
    let x = crate::relevance::counts(a.relevance@);
    let y = crate::relevance::counts(b.relevance@);
    assert(x == y);
    assert(x.len() == a.relevance@.len() && y.len() == b.relevance@.len());
    assert forall|k: int| 0 <= k < a.relevance@.len() implies (
    #[trigger] a.relevance@[k]).trigrams == b.relevance@[k].trigrams && a.relevance@[k].in_title
        == b.relevance@[k].in_title && a.relevance@[k].in_description
        == b.relevance@[k].in_description by {
        assert(x[k] == a.relevance@[k]@ && y[k] == b.relevance@[k]@);
    }
}

// --- Ranking ---

/// Ranking moves results: each place holds another of them, a greater score
/// comes first, and of equal scores the one that came first.
pub proof fn law_ranking_is_stable<R>(results: Seq<SearchResult<R>>)
    ensures
        ranked(results).len() == results.len(),
        exists|from: Seq<int>| #[trigger]
            moves(from, results, ranked(results)) && forall|i: int, j: int|
                0 <= i < j < from.len() ==> #[trigger] goes_before(results, from[i], from[j]),
{
    let keys = places(results);
    let from = descending(keys);
    lemma_descending(keys);
    assert(moves(from, results, ranked(results)));
    assert forall|i: int, j: int| 0 <= i < j < from.len() implies #[trigger] goes_before(
        results,
        from[i],
        from[j],
    ) by {
        assert(precedes(keys, from[i], from[j]));
        assert(keys[from[i]] == results[from[i]].score.place());
        assert(keys[from[j]] == results[from[j]].score.place());
    }
}

/// Whether `after` holds at each place the item of `before` from the position
/// that `from` gives, each position once.
pub open spec fn moves<T>(from: Seq<int>, before: Seq<T>, after: Seq<T>) -> bool {
    &&& from.len() == after.len()
    &&& forall|i: int|
        0 <= i < from.len() ==> 0 <= #[trigger] from[i] < before.len() && after[i]
            == before[from[i]]
    &&& forall|i: int, j: int| 0 <= i < j < from.len() ==> from[i] != from[j]
}

/// Whether the result at position `a` goes before the one at position `b`.
pub open spec fn goes_before<R>(results: Seq<SearchResult<R>>, a: int, b: int) -> bool {
    results[a].score.place() > results[b].score.place() || (results[a].score.place()
        == results[b].score.place() && a < b)
}

/// Whether `from` gives, in rising order, exactly the positions at which `here`
/// holds.
pub open spec fn are_positions(from: Seq<int>, len: nat, here: spec_fn(int) -> bool) -> bool {
    &&& forall|i: int| 0 <= i < from.len() ==> 0 <= #[trigger] from[i] < len && here(from[i])
    &&& forall|i: int, j: int| 0 <= i < j < from.len() ==> from[i] < from[j]
    &&& forall|k: int| 0 <= k < len && #[trigger] here(k) ==> from.contains(k)
}

/// Results without a score above zero keep their scores and their order; only
/// blocked ones leave, and all others stay, also those that are the same.
pub proof fn law_unblocked_results_keep_their_order(
    data: &RerankData,
    results: Seq<SearchResult<EngineSearchResult>>,
)
    ensures
        exists|from: Seq<int>| #[trigger]
            moves(from, results, unblocked(data, results)) && are_positions(
                from,
                results.len(),
                |k: int| identity(data, parts_of(results[k].result.url@)) is Some,
            ),
{
    let keeps = |r: SearchResult<EngineSearchResult>|
        source(data, r.result.url@) is Some;
    assert(unblocked(data, results) == results.filter(keeps));
    let from = lemma_filter_positions(results, keeps);
    assert(moves(from, results, unblocked(data, results)));
    let here = |k: int| identity(data, parts_of(results[k].result.url@)) is Some;
    assert forall|k: int| 0 <= k < results.len() && #[trigger] here(k) implies from.contains(
        k,
    ) by {
        assert(keeps(results[k]));
    }
    assert(are_positions(from, results.len(), here));
}

proof fn lemma_filter_positions<T>(items: Seq<T>, keeps: spec_fn(T) -> bool) -> (from: Seq<int>)
    ensures
        moves(from, items, items.filter(keeps)),
        forall|i: int, j: int| 0 <= i < j < from.len() ==> from[i] < from[j],
        forall|i: int| 0 <= i < from.len() ==> keeps(items[#[trigger] from[i]]),
        forall|k: int| 0 <= k < items.len() && keeps(#[trigger] items[k]) ==> from.contains(k),
    decreases items.len(),
{
    reveal(Seq::filter);
    if items.len() == 0 {
        Seq::empty()
    } else {
        let n = items.len() - 1;
        let head = items.drop_last();
        let before = lemma_filter_positions(head, keeps);
        assert forall|i: int| 0 <= i < before.len() implies 0 <= #[trigger] before[i] < items.len()
            && items.filter(keeps)[i] == items[before[i]] && keeps(items[before[i]]) by {
            assert(head[before[i]] == items[before[i]]);
        }
        let from = if keeps(items.last()) {
            before.push(n)
        } else {
            before
        };
        assert forall|k: int| 0 <= k < items.len() && keeps(
            #[trigger] items[k],
        ) implies from.contains(k) by {
            if k < n {
                assert(head[k] == items[k]);
                let i = choose|i: int| 0 <= i < before.len() && before[i] == k;
                assert(from[i] == k);
            } else {
                assert(from[before.len() as int] == n);
            }
        }
        from
    }
}

/// Scored results are those with a new score, each with that score and otherwise
/// as it was, in their order, also those that are the same.
pub proof fn law_scored_results_keep_their_order<R>(
    results: Seq<SearchResult<R>>,
    scores: Seq<Option<Binary64>>,
)
    requires
        scores.len() == results.len(),
    ensures
        exists|from: Seq<int>|
            {
                &&& #[trigger] from.len() == rescored(results, scores).len()
                &&& are_positions(from, results.len(), |k: int| scores[k] is Some)
                &&& forall|i: int|
                    0 <= i < from.len() ==> {
                        let r = rescored(results, scores)[i];
                        &&& r.result == results[#[trigger] from[i]].result
                        &&& r.engines == results[from[i]].engines
                        &&& scores[from[i]] == Some(r.score)
                    }
            },
{
    let from = lemma_scored_positions(results, scores);
    let here = |k: int| scores[k] is Some;
    assert forall|k: int| 0 <= k < results.len() && #[trigger] here(k) implies from.contains(
        k,
    ) by {
        assert(scores[k] is Some);
    }
    assert(are_positions(from, results.len(), here));
    assert(from.len() == rescored(results, scores).len());
}

proof fn lemma_scored_positions<R>(
    results: Seq<SearchResult<R>>,
    scores: Seq<Option<Binary64>>,
) -> (from: Seq<int>)
    requires
        scores.len() == results.len(),
    ensures
        from.len() == rescored(results, scores).len(),
        forall|i: int|
            0 <= i < from.len() ==> {
                let r = rescored(results, scores)[i];
                &&& 0 <= #[trigger] from[i] < results.len()
                &&& r.result == results[from[i]].result
                &&& r.engines == results[from[i]].engines
                &&& scores[from[i]] == Some(r.score)
            },
        forall|i: int, j: int| 0 <= i < j < from.len() ==> from[i] < from[j],
        forall|k: int| 0 <= k < results.len() && (#[trigger] scores[k]) is Some ==> from.contains(
            k,
        ),
    decreases results.len(),
{
    if results.len() == 0 {
        Seq::empty()
    } else {
        let n = results.len() - 1;
        let head = results.drop_last();
        let marks = scores.drop_last();
        let before = lemma_scored_positions(head, marks);
        let from = if scores[n] is Some {
            before.push(n)
        } else {
            before
        };
        assert forall|i: int| 0 <= i < from.len() implies {
            let r = rescored(results, scores)[i];
            &&& 0 <= #[trigger] from[i] < results.len()
            &&& r.result == results[from[i]].result
            &&& r.engines == results[from[i]].engines
            &&& scores[from[i]] == Some(r.score)
        } by {
            if i < before.len() {
                assert(from[i] == before[i]);
                assert(head[before[i]] == results[before[i]]);
                assert(marks[before[i]] == scores[before[i]]);
                assert(rescored(results, scores)[i] == rescored(head, marks)[i]);
            }
        }
        assert forall|k: int| 0 <= k < results.len() && (
        #[trigger] scores[k]) is Some implies from.contains(k) by {
            if k < n {
                assert(marks[k] == scores[k]);
                let i = choose|i: int| 0 <= i < before.len() && before[i] == k;
                assert(from[i] == k);
            } else {
                assert(from[before.len() as int] == n);
            }
        }
        from
    }
}

/// Every re-ranked result is one that was there, with the score that the
/// scoring gave for what describes it; where no score was above zero, with the
/// score it had.
pub proof fn law_reranked_results_are_scored<F: Fn(&RerankConfig, &Signals) -> Binary64>(
    combine: F,
    config: &RerankConfig,
    data: &RerankData,
    query: Seq<char>,
    before: Seq<SearchResult<EngineSearchResult>>,
    after: Seq<SearchResult<EngineSearchResult>>,
    k: int,
)
    requires
        is_reranked(combine, config, data, query, before, after),
        0 <= k < after.len(),
    ensures
        max_score(before).place() == 0 ==> before.contains(after[k]),
        max_score(before).place() != 0 ==> exists|i: int, signals: Signals|
            {
                &&& 0 <= i < before.len()
                &&& after[k].result == before[i].result
                &&& after[k].engines == before[i].engines
                &&& #[trigger] signals.describe(data, query, max_score(before), before[i])
                &&& combine.ensures((config, &signals), after[k].score)
            },
        max_score(before).place() != 0 ==> forall|j: int|
            k < j < after.len() ==> after[k].score.place() >= (#[trigger] after[j]).score.place(),
{
    broadcast use vstd::seq_lib::group_to_multiset_ensures;

    if max_score(before).place() == 0 {
        law_unblocked_results_keep_their_order(data, before);
        let from = choose|from: Seq<int>| #[trigger]
            moves(from, before, unblocked(data, before)) && are_positions(
                from,
                before.len(),
                |k: int| identity(data, parts_of(before[k].result.url@)) is Some,
            );
        assert(0 <= from[k] < before.len() && after[k] == before[from[k]]);
    } else {
        let scores = choose|scores: Seq<Option<Binary64>>|
            #![trigger rescored(before, scores)]
            crate::rerank::is_scoring(combine, config, data, query, before, scores) && after
                == ranked(rescored(before, scores));
        let left = rescored(before, scores);
        let r = after[k];
        law_ranked_is_sorted(left);
        assert(ranked(left).to_multiset().count(r) > 0);
        assert(left.contains(r));
        law_rescored_are_the_scored(before, scores, r);
        let i = choose|i: int|
            0 <= i < before.len() && (#[trigger] scores[i]) == Some(r.score) && r == with_score(
                before[i],
                r.score,
            );
        let signals = choose|signals: Signals| #[trigger]
            signals.describe(data, query, max_score(before), before[i]) && combine.ensures(
                (config, &signals),
                r.score,
            );
        assert(signals.describe(data, query, max_score(before), before[i]));
    }
}

/// A result with another score is otherwise the same.
pub proof fn law_scores_replace_scores<R>(result: SearchResult<R>, score: Binary64)
    ensures
        with_score(result, score).result == result.result,
        with_score(result, score).engines == result.engines,
        with_score(result, score).score == score,
{
}

} // verus!
