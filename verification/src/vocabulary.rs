//! Whom a snippet is written for, by the vocabulary it uses.

use crate::text::{
    chars_of, lemma_total_len, lemma_words_are_parts, lemma_words_len, string_of, total_len, views,
    words, words_of, Separator,
};
use crate::unicode::{char_is_uppercase, is_upper, lowered, text_to_lowercase};
use vstd::hash_set::StringHashSet;
use vstd::prelude::*;

verus! {

/// The number of words below which a snippet says nothing.
pub const MIN_WORDS: usize = 3;

/// The number of characters from which on a word counts as a technical term.
pub const LONG_WORD: usize = 8;

/// What is counted of the words of a snippet.
pub struct VocabularyCounts {
    pub words: nat,
    pub capitalized: nat,
    pub unique: nat,
    pub long: nat,
    pub chars: nat,
}

/// What is counted of the words of a snippet.
#[derive(Clone, Copy, Debug, PartialEq, Eq, Structural)]
pub struct L2Features {
    /// All words.
    pub words: usize,
    /// The words that begin with an uppercase letter and do not start a sentence,
    /// as the first one does and those after a `.`, `!` or `?`.
    pub capitalized: usize,
    /// The different words, whatever their case.
    pub unique: usize,
    /// The words with at least eight characters.
    pub long: usize,
    /// The characters of all words.
    pub chars: usize,
}

impl View for L2Features {
    type V = VocabularyCounts;

    open spec fn view(&self) -> VocabularyCounts {
        VocabularyCounts {
            words: self.words as nat,
            capitalized: self.capitalized as nat,
            unique: self.unique as nat,
            long: self.long as nat,
            chars: self.chars as nat,
        }
    }
}

/// Whether `word` begins with one of the letters in `upper`.
pub open spec fn begins_in(word: Seq<char>, upper: Set<char>) -> bool {
    word.len() > 0 && upper.contains(word[0])
}

/// Whether a sentence ends with `word`.
pub open spec fn ends_sentence(word: Seq<char>) -> bool {
    word.len() > 0 && (word.last() == '.' || word.last() == '!' || word.last() == '?')
}

/// Whether the word at position `i` starts a sentence: it is the first, or
/// follows the end of one.
pub open spec fn starts_sentence(words: Seq<Seq<char>>, i: int) -> bool {
    i == 0 || ends_sentence(words[i - 1])
}

/// The number of words that begin with one of the letters in `upper` and do not
/// start a sentence.
pub open spec fn capitalized(words: Seq<Seq<char>>, upper: Set<char>) -> nat
    decreases words.len(),
{
    if words.len() == 0 {
        0
    } else {
        let last = words.len() - 1;
        capitalized(words.drop_last(), upper) + if begins_in(words[last], upper)
            && !starts_sentence(words, last) {
            1nat
        } else {
            0nat
        }
    }
}

/// The words with at least eight characters.
pub open spec fn long_words(words: Seq<Seq<char>>) -> Seq<Seq<char>> {
    words.filter(|word: Seq<char>| word.len() >= LONG_WORD)
}

/// The counts of `words`, whose lowercase forms are `lowered`, where `upper`
/// are the uppercase letters.
pub open spec fn vocabulary(
    words: Seq<Seq<char>>,
    lowered: Seq<Seq<char>>,
    upper: Set<char>,
) -> VocabularyCounts {
    VocabularyCounts {
        words: words.len(),
        capitalized: capitalized(words, upper),
        unique: lowered.to_set().len(),
        long: long_words(words).len(),
        chars: total_len(words),
    }
}

/// The uppercase letters.
pub open spec fn uppercase_letters() -> Set<char> {
    Set::new(|c: char| is_upper(c))
}

/// The counts of the words of `text`.
pub open spec fn text_vocabulary(text: Seq<char>) -> VocabularyCounts {
    let list = words(text, Separator::Space);
    vocabulary(list, list.map_values(|word: Seq<char>| lowered(word)), uppercase_letters())
}

/// Counts the words that begin with an uppercase letter and do not start a
/// sentence.
fn count_capitalized(list: &Vec<Vec<char>>) -> (r: usize)
    ensures
        r == capitalized(views(list@), uppercase_letters()),
{
    let ghost all = views(list@);
    let mut n: usize = 0;
    let mut starts: bool = true;
    for i in 0..list.len()
        invariant
            all == views(list@),
            n <= i,
            n == capitalized(all.take(i as int), uppercase_letters()),
            starts == starts_sentence(all, i as int),
    {
        let word = &list[i];
        proof {
            let head = all.take(i + 1);
            assert(head.drop_last() =~= all.take(i as int));
            assert(head[i as int] == word@);
            if i > 0 {
                assert(head[i - 1] == all[i - 1]);
            }
            assert(all[i as int] == word@);
        }
        if !starts && word.len() > 0 && char_is_uppercase(word[0]) {
            n = n + 1;
        }
        starts = sentence_end(word);
    }
    assert(all.take(list@.len() as int) =~= all);
    n
}

/// Whether a sentence ends with `word`.
fn sentence_end(word: &Vec<char>) -> (r: bool)
    ensures
        r == ends_sentence(word@),
{
    let n = word.len();
    n > 0 && (word[n - 1] == '.' || word[n - 1] == '!' || word[n - 1] == '?')
}

/// Counts the different words, whatever their case.
fn count_unique(list: &Vec<Vec<char>>) -> (r: usize)
    ensures
        r == views(list@).map_values(|word: Seq<char>| lowered(word)).to_set().len(),
{
    let ghost all = views(list@).map_values(|word: Seq<char>| lowered(word));
    let mut seen = StringHashSet::new();
    assert(seen@ =~= all.take(0).to_set());
    for i in 0..list.len()
        invariant
            all == views(list@).map_values(|word: Seq<char>| lowered(word)),
            seen@ == all.take(i as int).to_set(),
    {
        let word = string_of(&list[i]);
        let lower = text_to_lowercase(word.as_str());
        proof {
            assert(views(list@)[i as int] == word@);
            let head = all.take(i as int);
            assert(all.take(i + 1) =~= head.push(lower@));
            assert(all.take(i + 1).to_set() =~= head.to_set().insert(lower@)) by {
                head.lemma_push_to_set_commute(lower@);
            }
        }
        seen.insert(lower);
    }
    assert(all.take(list@.len() as int) =~= all);
    seen.len()
}

/// Counts the words with at least eight characters.
fn count_long(list: &Vec<Vec<char>>) -> (r: usize)
    ensures
        r == long_words(views(list@)).len(),
{
    let ghost all = views(list@);
    let ghost long = |word: Seq<char>| word.len() >= LONG_WORD;
    let mut n: usize = 0;
    proof {
        reveal(Seq::filter);
        assert(all.take(0) =~= Seq::empty());
    }
    for i in 0..list.len()
        invariant
            all == views(list@),
            long == (|word: Seq<char>| word.len() >= LONG_WORD),
            n <= i,
            n == all.take(i as int).filter(long).len(),
    {
        proof {
            reveal(Seq::filter);
            assert(all.take(i + 1).drop_last() =~= all.take(i as int));
            assert(all.take(i + 1).last() == list@[i as int]@);
        }
        if list[i].len() >= LONG_WORD {
            n = n + 1;
        }
    }
    assert(all.take(list@.len() as int) =~= all);
    n
}

/// Counts the characters of all words.
fn count_chars(list: &Vec<Vec<char>>) -> (r: usize)
    requires
        total_len(views(list@)) <= usize::MAX,
    ensures
        r == total_len(views(list@)),
{
    let ghost all = views(list@);
    let mut n: usize = 0;
    for i in 0..list.len()
        invariant
            all == views(list@),
            total_len(all) <= usize::MAX,
            n == total_len(all.take(i as int)),
    {
        proof {
            assert(all.take(i + 1).drop_last() =~= all.take(i as int));
            assert(all.take(i + 1).last() == list@[i as int]@);
            lemma_total_len(all, i + 1);
        }
        n = n + list[i].len();
    }
    assert(all.take(list@.len() as int) =~= all);
    n
}

/// Counts what the sophistication of a snippet's audience is judged by. A
/// snippet of fewer than three words is not judged.
pub fn score_l2(text: &str) -> (r: Option<L2Features>)
    ensures
        r is Some <==> words(text@, Separator::Space).len() >= MIN_WORDS,
        r matches Some(features) ==> features@ == text_vocabulary(text@),
{
    let chars = chars_of(text);
    let list = words_of(&chars, Separator::Space);
    let length = chars.len();
    if list.len() < MIN_WORDS {
        return None;
    }
    proof {
        lemma_words_len(text@, Separator::Space);
    }
    Some(
        L2Features {
            words: list.len(),
            capitalized: count_capitalized(&list),
            unique: count_unique(&list),
            long: count_long(&list),
            chars: count_chars(&list),
        },
    )
}

// --- Laws ---

/// Each ratio of counts lies between zero and one: fewer words are capitalized
/// than there are, there is at least one different word and no more of them
/// than words, and each long word accounts for eight characters.
pub proof fn law_counts_are_bounded(text: Seq<char>)
    requires
        words(text, Separator::Space).len() > 0,
    ensures
        text_vocabulary(text).capitalized < text_vocabulary(text).words,
        0 < text_vocabulary(text).unique <= text_vocabulary(text).words,
        text_vocabulary(text).long <= text_vocabulary(text).words,
        LONG_WORD * text_vocabulary(text).long <= text_vocabulary(text).chars,
        text_vocabulary(text).words <= text_vocabulary(text).chars <= text.len(),
{
    let list = words(text, Separator::Space);
    let lower = list.map_values(|word: Seq<char>| lowered(word));
    lemma_capitalized(list, uppercase_letters());
    list.lemma_filter_len(|word: Seq<char>| word.len() >= LONG_WORD);
    lower.lemma_cardinality_of_set();
    assert(lower.to_set().contains(lower[0]));
    vstd::seq_lib::seq_to_set_is_finite(lower);
    if lower.to_set().len() == 0 {
        assert(lower.to_set() =~= Set::empty());
    }
    lemma_words_are_parts(text, Separator::Space);
    lemma_words_len(text, Separator::Space);
    lemma_long_words(list);
}

/// The first word is never counted as capitalized.
proof fn lemma_capitalized(list: Seq<Seq<char>>, upper: Set<char>)
    requires
        list.len() > 0,
    ensures
        capitalized(list, upper) < list.len(),
    decreases list.len(),
{
    if list.len() > 1 {
        lemma_capitalized(list.drop_last(), upper);
    } else {
        assert(capitalized(list.drop_last(), upper) == 0);
    }
}

/// Each word has a character, and each long one eight.
proof fn lemma_long_words(list: Seq<Seq<char>>)
    requires
        forall|i: int| 0 <= i < list.len() ==> (#[trigger] list[i]).len() > 0,
    ensures
        LONG_WORD * long_words(list).len() <= total_len(list),
        list.len() <= total_len(list),
    decreases list.len(),
{
    reveal(Seq::filter);
    if list.len() > 0 {
        lemma_long_words(list.drop_last());
    }
}

} // verus!
