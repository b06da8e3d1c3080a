//! Laws of the vocabulary of snippets.

use crate::text::{total_len, words, Separator};
use crate::unicode::{is_upper, lowered};
use crate::vocabulary::{
    capitalized, long_words, text_vocabulary, uppercase_letters, L2Features, MIN_WORDS,
};
use vstd::prelude::*;

verus! {

/// Whether the word at position `i` begins with an uppercase letter in the
/// middle of a sentence.
pub open spec fn is_capitalized(list: Seq<Seq<char>>, i: int) -> bool {
    &&& 0 < i < list.len()
    &&& list[i].len() > 0
    &&& is_upper(list[i][0])
    &&& !(list[i - 1].len() > 0 && (list[i - 1].last() == '.' || list[i - 1].last() == '!'
        || list[i - 1].last() == '?'))
}

/// Words are counted by their positions: all, those that begin with an uppercase
/// letter in the middle of a sentence, and those of eight characters or more.
/// Different words are those that differ in lowercase.
pub proof fn law_words_are_counted(text: Seq<char>)
    ensures
        ({
            let list = words(text, Separator::Space);
            let counts = text_vocabulary(text);
            &&& counts.words == list.len()
            &&& counts.capitalized == Set::new(|i: int| is_capitalized(list, i)).len()
            &&& counts.long == Set::new(
                |i: int| 0 <= i < list.len() && list[i].len() >= 8,
            ).len()
            &&& counts.unique == Set::new(
                |low: Seq<char>|
                    exists|i: int| 0 <= i < list.len() && lowered(#[trigger] list[i]) == low,
            ).len()
            &&& counts.chars == total_len(list)
        }),
        MIN_WORDS == 3,
{
    let list = words(text, Separator::Space);
    lemma_capitalized_positions(list);
    lemma_long_positions(list);
    let low = list.map_values(|word: Seq<char>| lowered(word));
    let set = Set::new(
        |low: Seq<char>|
            exists|i: int| 0 <= i < list.len() && lowered(#[trigger] list[i]) == low,
    );
    assert(low.to_set() =~= set) by {
        assert forall|s: Seq<char>| low.to_set().contains(s) <==> set.contains(s) by {
            if low.to_set().contains(s) {
                let i = choose|i: int| 0 <= i < low.len() && low[i] == s;
                assert(lowered(list[i]) == s);
            }
            if set.contains(s) {
                let i = choose|i: int| 0 <= i < list.len() && lowered(#[trigger] list[i]) == s;
                assert(low[i] == s);
            }
        }
    }
}

proof fn lemma_capitalized_positions(list: Seq<Seq<char>>)
    ensures
        Set::new(|i: int| is_capitalized(list, i)).finite(),
        capitalized(list, uppercase_letters()) == Set::new(|i: int| is_capitalized(list, i)).len(),
    decreases list.len(),
{
    let all = Set::new(|i: int| is_capitalized(list, i));
    if list.len() == 0 {
        assert(all =~= Set::empty());
    } else {
        let n = list.len() - 1;
        let head = list.drop_last();
        let some = Set::new(|i: int| is_capitalized(head, i));
        lemma_capitalized_positions(head);
        assert forall|i: int| i != n implies (all.contains(i) <==> some.contains(i)) by {
            if 0 < i < n {
                assert(head[i] == list[i] && head[i - 1] == list[i - 1]);
            }
        }
        assert(!some.contains(n));
        if all.contains(n) {
            assert(all =~= some.insert(n));
        } else {
            assert(all =~= some);
        }
    }
}

proof fn lemma_long_positions(list: Seq<Seq<char>>)
    ensures
        Set::new(|i: int| 0 <= i < list.len() && list[i].len() >= 8).finite(),
        long_words(list).len() == Set::new(
            |i: int| 0 <= i < list.len() && list[i].len() >= 8,
        ).len(),
    decreases list.len(),
{
    reveal(Seq::filter);
    let all = Set::new(|i: int| 0 <= i < list.len() && list[i].len() >= 8);
    if list.len() == 0 {
        assert(all =~= Set::empty());
    } else {
        let n = list.len() - 1;
        let head = list.drop_last();
        let some = Set::new(|i: int| 0 <= i < head.len() && head[i].len() >= 8);
        lemma_long_positions(head);
        if list[n].len() >= 8 {
            assert(all =~= some.insert(n));
        } else {
            assert(all =~= some);
        }
    }
}

/// The counts are the fields that hold them.
pub proof fn law_features_are_their_fields(features: L2Features)
    ensures
        features@.words == features.words,
        features@.capitalized == features.capitalized,
        features@.unique == features.unique,
        features@.long == features.long,
        features@.chars == features.chars,
{
}

} // verus!
