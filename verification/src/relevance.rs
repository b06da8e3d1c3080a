//! How much of a query a result contains, by byte trigrams.

use crate::text::{chars_of, string_of, views, words, words_of, Separator};
use crate::unicode::{
    ascii_lower, ascii_lowercase, char_to_lowercase, decompose, decomposed, lowered_char,
};
use std::collections::HashSet;
use vstd::prelude::*;
use vstd::utf8::{encode_utf8, is_ascii_chars};

verus! {

broadcast use vstd::std_specs::hash::group_hash_axioms;

// --- Trigrams ---

/// Whether `c` is a combining diacritical mark of the block U+0300 to U+036F.
pub open spec fn is_mark(c: char) -> bool {
    '\u{300}' <= c <= '\u{36f}'
}

/// Whether `c` is a combining diacritical mark. The block U+0300 to U+036F
/// holds all diacritics of the Latin script.
pub fn is_combining_mark(c: char) -> (r: bool)
    ensures
        r == is_mark(c),
{
    '\u{300}' <= c && c <= '\u{36f}'
}

/// The lowercase forms of the characters of `s` that are no combining marks.
pub open spec fn folded(s: Seq<char>) -> Seq<char>
    decreases s.len(),
{
    if s.len() == 0 {
        Seq::empty()
    } else {
        folded(s.drop_last()) + if is_mark(s.last()) {
            Seq::empty()
        } else {
            lowered_char(s.last())
        }
    }
}

/// The form in which texts are compared: decomposed, without diacritics, and in
/// lowercase.
pub open spec fn normalized(s: Seq<char>) -> Seq<char> {
    folded(decomposed(s))
}

/// The number that stands for three bytes.
pub open spec fn code(a: u8, b: u8, c: u8) -> u32 {
    (a * 65536 + b * 256 + c) as u32
}

/// The codes of all runs of three bytes in `bytes`.
pub open spec fn trigram_codes(bytes: Seq<u8>) -> Set<u32>
    decreases bytes.len(),
{
    if bytes.len() < 3 {
        Set::empty()
    } else {
        let n = bytes.len() as int;
        trigram_codes(bytes.drop_last()).insert(code(bytes[n - 3], bytes[n - 2], bytes[n - 1]))
    }
}

/// The codes of the trigrams of a text, of which one shorter than three bytes
/// has none.
pub open spec fn text_trigrams(s: Seq<char>) -> Set<u32> {
    if encode_utf8(s).len() < 3 {
        Set::empty()
    } else {
        trigram_codes(encode_utf8(normalized(s)))
    }
}

/// A set of byte trigrams.
#[derive(Debug, PartialEq, Eq)]
pub struct Trigrams {
    codes: HashSet<u32>,
}

impl View for Trigrams {
    type V = Set<u32>;

    closed spec fn view(&self) -> Set<u32> {
        self.codes@
    }
}

impl Trigrams {
    /// The number of trigrams in the set.
    pub fn len(&self) -> (r: usize)
        ensures
            r == self@.len(),
    {
        self.codes.len()
    }

    /// Whether there is no trigram in the set.
    pub fn is_empty(&self) -> (r: bool)
        ensures
            r == (self@ == Set::<u32>::empty()),
    {
        self.codes.is_empty()
    }

    /// Whether the three bytes are in the set.
    pub fn contains(&self, trigram: &[u8; 3]) -> (r: bool)
        ensures
            r == self@.contains(code(trigram@[0], trigram@[1], trigram@[2])),
    {
        self.codes.contains(&code_of(trigram[0], trigram[1], trigram[2]))
    }
}

/// The number that stands for three bytes.
fn code_of(a: u8, b: u8, c: u8) -> (r: u32)
    ensures
        r == code(a, b, c),
{
    a as u32 * 65536 + b as u32 * 256 + c as u32
}

/// Brings a text into the form in which texts are compared.
fn normalize_text(s: &str) -> (r: String)
    ensures
        r@ == normalized(s@),
{
    let chars = decompose(s);
    let mut out = String::new();
    for i in 0..chars.len()
        invariant
            chars@ == decomposed(s@),
            out@ == folded(chars@.take(i as int)),
    {
        let c = chars[i];
        assert(chars@.take(i + 1).drop_last() =~= chars@.take(i as int));
        let ghost before = out@;
        if !is_combining_mark(c) {
            let lower = char_to_lowercase(c);
            for k in 0..lower.len()
                invariant
                    out@ == before + lower@.take(k as int),
            {
                assert(lower@.take(k + 1) =~= lower@.take(k as int).push(lower@[k as int]));
                out.push(lower[k]);
            }
            assert(lower@.take(lower@.len() as int) =~= lower@);
        } else {
            assert(out@ =~= before + Seq::empty());
        }
    }
    assert(chars@.take(chars@.len() as int) =~= chars@);
    out
}

/// Extracts the byte trigrams of a text in lowercase and without diacritics.
/// There are none where the text or that form is shorter than three bytes.
pub fn trigrams(s: &str) -> (r: Trigrams)
    ensures
        r@ == text_trigrams(s@),
        encode_utf8(s@).len() < 3 ==> r@ == Set::<u32>::empty(),
{
    if s.as_bytes().len() < 3 {
        let codes: HashSet<u32> = HashSet::new();
        assert(codes@ =~= Set::empty());
        return Trigrams { codes };
    }
    let text = normalize_text(s);
    let bytes = text.as_str().as_bytes();
    let mut codes: HashSet<u32> = HashSet::new();
    assert(codes@ =~= trigram_codes(bytes@.take(0)));
    for i in 0..bytes.len()
        invariant
            codes@ == trigram_codes(bytes@.take(i as int)),
    {
        assert(bytes@.take(i + 1).drop_last() =~= bytes@.take(i as int));
        if i >= 2 {
            codes.insert(code_of(bytes[i - 2], bytes[i - 1], bytes[i]));
        } else {
            assert(codes@ =~= trigram_codes(bytes@.take(i + 1)));
        }
    }
    assert(bytes@.take(bytes@.len() as int) =~= bytes@);
    Trigrams { codes }
}

// --- Containment ---

/// How many of a query's trigrams there are, and how many of them a text has.
#[derive(Clone, Copy, Debug, PartialEq, Eq, Structural)]
pub struct Containment {
    pub found: usize,
    pub total: usize,
}

/// Counts the trigrams of the query that the text has, however much else the
/// text has.
pub fn trigram_containment(query: &Trigrams, text: &Trigrams) -> (r: Containment)
    ensures
        r.found == query@.intersect(text@).len(),
        r.total == query@.len(),
        r.found <= r.total,
{
    let total = query.codes.len();
    let mut found: usize = 0;
    let ghost mut seen: Seq<u32> = Seq::empty();
    assert(seen.to_set().intersect(text@) =~= Set::empty());
    for c in it: query.codes.iter()
        invariant
            it.index() == it.seq().len() ==> seen.to_set() == query@,
            it.seq().unref().to_set() == query@,
            it.seq().no_duplicates(),
            it.seq().len() == total,
            seen == it.seq().unref().take(it.index() as int),
            seen.to_set().intersect(text@).finite(),
            found == seen.to_set().intersect(text@).len(),
            found <= it.index(),
    {
        let ghost before = seen.to_set().intersect(text@);
        let ghost keys = it.seq().unref();
        let ghost i = it.index();
        proof {
            assert(keys[i] == *c);
            assert(keys.take(i + 1) =~= seen.push(*c));
            assert(!seen.contains(*c)) by {
                if seen.contains(*c) {
                    let j = choose|j: int| 0 <= j < seen.len() && seen[j] == *c;
                    assert(it.seq()[j] == it.seq()[i]);
                }
            }
            seen = seen.push(*c);
            if i + 1 == keys.len() {
                assert(seen =~= keys);
            }
            assert(seen.contains(*c)) by {
                assert(seen[i] == *c);
            }
            assert forall|k: u32|
                seen.to_set().contains(k) <==> keys.take(i).to_set().contains(k) || k == *c by {
                if keys.take(i).to_set().contains(k) {
                    let j = choose|j: int| 0 <= j < i && keys.take(i)[j] == k;
                    assert(seen[j] == k);
                }
            }
            if text@.contains(*c) {
                assert(seen.to_set().intersect(text@) =~= before.insert(*c));
            } else {
                assert(seen.to_set().intersect(text@) =~= before);
            }
        }
        if text.codes.contains(c) {
            found = found + 1;
        }
    }
    Containment { found, total }
}

// --- Query relevance ---

/// The counts for one word of a query: its trigrams, and how many of them the
/// title and the description of a result have.
pub struct WordCounts {
    pub trigrams: nat,
    pub in_title: nat,
    pub in_description: nat,
}

/// The counts for one word of a query.
#[derive(Clone, Copy, Debug, PartialEq, Eq, Structural)]
pub struct WordMatch {
    pub trigrams: usize,
    pub in_title: usize,
    pub in_description: usize,
}

impl View for WordMatch {
    type V = WordCounts;

    open spec fn view(&self) -> WordCounts {
        WordCounts {
            trigrams: self.trigrams as nat,
            in_title: self.in_title as nat,
            in_description: self.in_description as nat,
        }
    }
}

/// The counts of a list of words.
pub open spec fn counts(matches: Seq<WordMatch>) -> Seq<WordCounts> {
    matches.map_values(|m: WordMatch| m@)
}

/// The counts for a word with the given trigrams.
pub open spec fn word_counts(word: Set<u32>, title: Set<u32>, description: Set<u32>) -> WordCounts {
    WordCounts {
        trigrams: word.len(),
        in_title: word.intersect(title).len(),
        in_description: word.intersect(description).len(),
    }
}

/// The words that have trigrams: shorter ones are skipped.
pub open spec fn telling(words: Seq<Set<u32>>) -> Seq<Set<u32>> {
    words.filter(|word: Set<u32>| word != Set::<u32>::empty())
}

/// The counts for each word of a query that has trigrams.
pub open spec fn relevance(
    words: Seq<Set<u32>>,
    title: Set<u32>,
    description: Set<u32>,
) -> Seq<WordCounts> {
    telling(words).map_values(|word: Set<u32>| word_counts(word, title, description))
}

/// The trigrams of each word of a query.
pub open spec fn query_words(query: Seq<char>) -> Seq<Set<u32>> {
    words(query, Separator::Space).map_values(|word: Seq<char>| text_trigrams(word))
}

/// Compares a result with a query: each word of the query by itself with the
/// full title and description, so that other word boundaries ("KDTree" for
/// "kd tree") do not count against a result.
///
/// Words without trigrams are skipped. Where no word is left, the result is
/// not to be penalized.
pub fn score_relevance(query: &str, title: &str, description: &str) -> (r: Vec<WordMatch>)
    ensures
        counts(r@) == relevance(
            query_words(query@),
            text_trigrams(title@),
            text_trigrams(description@),
        ),
{
    let chars = chars_of(query);
    let list = words_of(&chars, Separator::Space);
    let title_trigrams = trigrams(title);
    let description_trigrams = trigrams(description);
    let ghost sets = query_words(query@);
    let mut out: Vec<WordMatch> = Vec::new();
    proof {
        reveal(Seq::filter);
        assert(sets.take(0) =~= Seq::empty());
        assert(counts(out@) =~= relevance(
            sets.take(0),
            title_trigrams@,
            description_trigrams@,
        ));
    }
    for i in 0..list.len()
        invariant
            views(list@) == words(query@, Separator::Space),
            sets == query_words(query@),
            title_trigrams@ == text_trigrams(title@),
            description_trigrams@ == text_trigrams(description@),
            counts(out@) == relevance(
                sets.take(i as int),
                title_trigrams@,
                description_trigrams@,
            ),
    {
        let word = string_of(&list[i]);
        let word_trigrams = trigrams(word.as_str());
        proof {
            reveal(Seq::filter);
            assert(views(list@)[i as int] == word@);
            assert(sets[i as int] == word_trigrams@);
            assert(sets.take(i + 1).drop_last() =~= sets.take(i as int));
        }
        let ghost before = counts(out@);
        if !word_trigrams.is_empty() {
            let in_title = trigram_containment(&word_trigrams, &title_trigrams);
            let in_description = trigram_containment(&word_trigrams, &description_trigrams);
            out.push(
                WordMatch {
                    trigrams: in_title.total,
                    in_title: in_title.found,
                    in_description: in_description.found,
                },
            );
            assert(counts(out@) =~= before.push(
                word_counts(word_trigrams@, title_trigrams@, description_trigrams@),
            ));
        }
        assert(counts(out@) =~= relevance(
            sets.take(i + 1),
            title_trigrams@,
            description_trigrams@,
        ));
    }
    assert(sets.take(list@.len() as int) =~= sets);
    out
}

// --- Laws ---

proof fn lemma_trigram_codes_finite(bytes: Seq<u8>)
    ensures
        trigram_codes(bytes).finite(),
    decreases bytes.len(),
{
    if bytes.len() >= 3 {
        lemma_trigram_codes_finite(bytes.drop_last());
    }
}

/// Whether the bytes `a`, `b`, `c` stand next to each other at position `at`.
pub open spec fn stands_at(bytes: Seq<u8>, a: u8, b: u8, c: u8, at: int) -> bool {
    0 <= at && at + 3 <= bytes.len() && bytes[at] == a && bytes[at + 1] == b && bytes[at + 2] == c
}

/// Different bytes have different codes.
pub proof fn law_codes_are_distinct(a: u8, b: u8, c: u8, x: u8, y: u8, z: u8)
    requires
        code(a, b, c) == code(x, y, z),
    ensures
        a == x && b == y && c == z,
{
}

/// Three bytes are among the trigrams exactly where they stand next to each
/// other somewhere.
pub proof fn law_trigrams_are_windows(bytes: Seq<u8>, a: u8, b: u8, c: u8)
    ensures
        trigram_codes(bytes).contains(code(a, b, c)) <==> exists|at: int|
            stands_at(bytes, a, b, c, at),
    decreases bytes.len(),
{
    if bytes.len() >= 3 {
        let n = bytes.len() as int;
        let head = bytes.drop_last();
        law_trigrams_are_windows(head, a, b, c);
        if code(a, b, c) == code(bytes[n - 3], bytes[n - 2], bytes[n - 1]) {
            law_codes_are_distinct(a, b, c, bytes[n - 3], bytes[n - 2], bytes[n - 1]);
            assert(stands_at(bytes, a, b, c, n - 3));
        }
        if trigram_codes(head).contains(code(a, b, c)) {
            let at = choose|at: int| stands_at(head, a, b, c, at);
            assert(stands_at(bytes, a, b, c, at));
        }
        if exists|at: int| stands_at(bytes, a, b, c, at) {
            let at = choose|at: int| stands_at(bytes, a, b, c, at);
            if at < n - 3 {
                assert(stands_at(head, a, b, c, at));
            }
        }
    }
}

/// A text of fewer than three bytes has no trigrams, and neither has one whose
/// form in lowercase and without diacritics is that short.
pub proof fn law_short_texts_have_no_trigrams(s: Seq<char>)
    requires
        encode_utf8(s).len() < 3 || encode_utf8(normalized(s)).len() < 3,
    ensures
        text_trigrams(s) == Set::<u32>::empty(),
{
}

/// A text that holds the query's bytes, with whatever around them, has all of
/// the query's trigrams.
pub proof fn law_verbatim_text_contains_query(before: Seq<u8>, query: Seq<u8>, after: Seq<u8>)
    ensures
        trigram_codes(query).subset_of(trigram_codes(before + query + after)),
    decreases query.len(),
{
    let text = before + query + after;
    if query.len() >= 3 {
        let n = query.len() as int;
        let last = query.last();
        law_verbatim_text_contains_query(before, query.drop_last(), seq![last] + after);
        assert(before + query.drop_last() + (seq![last] + after) =~= text);
        let m = before.len() + n - 3;
        assert(stands_at(text, query[n - 3], query[n - 2], query[n - 1], m));
        law_trigrams_are_windows(text, query[n - 3], query[n - 2], query[n - 1]);
    }
}

/// All of a query's trigrams are found where the text has them all, and only
/// there; none are found where it has none of them, and only there.
pub proof fn law_containment_extremes(query: Set<u32>, text: Set<u32>)
    requires
        query.finite(),
    ensures
        query.intersect(text).len() == query.len() <==> query.subset_of(text),
        query.intersect(text).len() == 0 <==> query.disjoint(text),
{
    let both = query.intersect(text);
    vstd::set_lib::lemma_len_subset(both, query);
    if query.subset_of(text) {
        assert(both =~= query);
    }
    if both.len() == query.len() {
        vstd::set_lib::lemma_subset_equality(both, query);
        assert forall|c: u32| query.contains(c) implies text.contains(c) by {
            assert(both.contains(c));
        }
    }
    if query.disjoint(text) {
        assert(both =~= Set::empty());
    }
    if both.len() == 0 {
        assert forall|c: u32| query.contains(c) implies !text.contains(c) by {
            if text.contains(c) {
                assert(both.contains(c));
                assert(both.remove(c).len() < both.len());
            }
        }
    }
}

/// Every word that is counted has at least one trigram, and no more of them
/// are found than there are.
pub proof fn law_counts_are_bounded(query: Seq<char>, title: Set<u32>, description: Set<u32>)
    ensures
        forall|i: int|
            0 <= i < relevance(query_words(query), title, description).len() ==> {
                let c = #[trigger] relevance(query_words(query), title, description)[i];
                &&& 0 < c.trigrams
                &&& c.in_title <= c.trigrams
                &&& c.in_description <= c.trigrams
            },
{
    let all = query_words(query);
    let kept = telling(all);
    let pred = |word: Set<u32>| word != Set::<u32>::empty();
    assert forall|i: int|
        0 <= i < relevance(query_words(query), title, description).len() implies {
        let c = #[trigger] relevance(query_words(query), title, description)[i];
        &&& 0 < c.trigrams
        &&& c.in_title <= c.trigrams
        &&& c.in_description <= c.trigrams
    } by {
        let word = kept[i];
        assert(kept.contains(word));
        all.lemma_filter_pred(pred, i);
        all.lemma_filter_contains_rev(pred, word);
        let j = choose|j: int| 0 <= j < all.len() && all[j] == word;
        let text = words(query, Separator::Space)[j];
        lemma_trigram_codes_finite(encode_utf8(normalized(text)));
        assert(word == text_trigrams(text));
        assert(word.finite());
        vstd::set_lib::lemma_len_subset(word.intersect(title), word);
        vstd::set_lib::lemma_len_subset(word.intersect(description), word);
        if word.len() == 0 {
            assert(word =~= Set::empty());
        }
    }
}

/// Where no word of a query has trigrams, nothing is counted.
pub proof fn law_untelling_queries_count_nothing(
    words: Seq<Set<u32>>,
    title: Set<u32>,
    description: Set<u32>,
)
    requires
        forall|i: int| 0 <= i < words.len() ==> #[trigger] words[i] == Set::<u32>::empty(),
    ensures
        relevance(words, title, description).len() == 0,
    decreases words.len(),
{
    reveal(Seq::filter);
    if words.len() > 0 {
        law_untelling_queries_count_nothing(words.drop_last(), title, description);
    }
}

/// `s` without its combining marks.
pub open spec fn without_marks(s: Seq<char>) -> Seq<char> {
    s.filter(|c: char| !is_mark(c))
}

/// Texts that decompose to the same characters but for their diacritics have
/// the same trigrams, unless only one of them is too short for any.
pub proof fn law_diacritics_do_not_matter(a: Seq<char>, b: Seq<char>)
    requires
        without_marks(decomposed(a)) == without_marks(decomposed(b)),
        (encode_utf8(a).len() < 3) == (encode_utf8(b).len() < 3) || encode_utf8(
            normalized(a),
        ).len() < 3,
    ensures
        text_trigrams(a) == text_trigrams(b),
{
    lemma_folded_without_marks(decomposed(a));
    lemma_folded_without_marks(decomposed(b));
}

proof fn lemma_folded_without_marks(s: Seq<char>)
    ensures
        folded(without_marks(s)) == folded(s),
    decreases s.len(),
{
    reveal(Seq::filter);
    if s.len() > 0 {
        let kept = without_marks(s.drop_last());
        lemma_folded_without_marks(s.drop_last());
        if is_mark(s.last()) {
            assert(folded(s) =~= folded(s.drop_last()));
        } else {
            assert(kept.push(s.last()).drop_last() =~= kept);
        }
    }
}

/// ASCII text is compared in lowercase, and otherwise as it is.
pub proof fn law_ascii_is_lowered(s: Seq<char>)
    requires
        is_ascii_chars(s),
    ensures
        normalized(s) == ascii_lowercase(s),
    decreases s.len(),
{
    if s.len() > 0 {
        law_ascii_is_lowered(s.drop_last());
        assert(s.last() <= '\u{7f}');
        assert(ascii_lowercase(s) =~= ascii_lowercase(s.drop_last()).push(ascii_lower(s.last())));
    }
}

/// ASCII texts have the same trigrams in any letter case.
pub proof fn law_case_does_not_matter(a: Seq<char>, b: Seq<char>)
    requires
        is_ascii_chars(a),
        is_ascii_chars(b),
        ascii_lowercase(a) == ascii_lowercase(b),
    ensures
        text_trigrams(a) == text_trigrams(b),
{
    law_ascii_is_lowered(a);
    law_ascii_is_lowered(b);
    vstd::utf8::is_ascii_chars_encode_utf8(a);
    vstd::utf8::is_ascii_chars_encode_utf8(b);
    assert(ascii_lowercase(a).len() == a.len());
    assert(ascii_lowercase(b).len() == b.len());
}

/// An ASCII text that quotes the query, in whatever letter case, has all of the
/// query's trigrams.
pub proof fn law_quoting_text_contains_query(
    before: Seq<char>,
    quoted: Seq<char>,
    after: Seq<char>,
    query: Seq<char>,
)
    requires
        is_ascii_chars(before + quoted + after),
        is_ascii_chars(query),
        ascii_lowercase(quoted) == ascii_lowercase(query),
    ensures
        text_trigrams(query).subset_of(text_trigrams(before + quoted + after)),
{
    let text = before + quoted + after;
    assert(is_ascii_chars(before)) by {
        assert forall|i: int| 0 <= i < before.len() implies '\0' <= #[trigger] before[i]
            <= '\u{7f}' by {
            assert(text[i] == before[i]);
        }
    }
    assert(is_ascii_chars(after)) by {
        assert forall|i: int| 0 <= i < after.len() implies '\0' <= #[trigger] after[i]
            <= '\u{7f}' by {
            assert(text[before.len() + quoted.len() + i] == after[i]);
        }
    }
    law_ascii_is_lowered(text);
    law_ascii_is_lowered(query);
    vstd::utf8::is_ascii_chars_encode_utf8(text);
    vstd::utf8::is_ascii_chars_encode_utf8(query);
    lemma_lowered_bytes(before);
    lemma_lowered_bytes(query);
    lemma_lowered_bytes(after);
    lemma_lowered_bytes(text);
    let low = ascii_lowercase(text);
    let low_query = ascii_lowercase(query);
    assert(quoted.len() == query.len()) by {
        assert(ascii_lowercase(quoted).len() == quoted.len());
        assert(low_query.len() == query.len());
    }
    assert(low =~= ascii_lowercase(before) + low_query + ascii_lowercase(after)) by {
        assert forall|i: int| 0 <= i < query.len() implies #[trigger] low[before.len() + i]
            == low_query[i] by {
            assert(low[before.len() + i] == ascii_lower(quoted[i]));
            assert(ascii_lowercase(quoted)[i] == low_query[i]);
        }
        assert forall|i: int| 0 <= i < low.len() implies #[trigger] low[i] == (ascii_lowercase(
            before,
        ) + low_query + ascii_lowercase(after))[i] by {
            if before.len() <= i < before.len() + query.len() {
                assert(low[before.len() + (i - before.len())] == low_query[i - before.len()]);
            }
        }
    }
    let bytes = encode_utf8(low);
    let parts = encode_utf8(ascii_lowercase(before)) + encode_utf8(low_query) + encode_utf8(
        ascii_lowercase(after),
    );
    assert(bytes.len() == parts.len());
    assert forall|i: int| 0 <= i < bytes.len() implies bytes[i] == parts[i] by {
        let m = before.len() as int;
        let n = m + query.len();
        assert(low[i] == ascii_lower(text[i]));
        assert(bytes[i] == low[i] as u8);
        if i < m {
            assert(parts[i] == encode_utf8(ascii_lowercase(before))[i]);
        } else if i < n {
            assert(parts[i] == encode_utf8(low_query)[i - m]);
            assert(low_query[i - m] == ascii_lower(query[i - m]));
            assert(low[i] == low_query[i - m]);
        } else {
            assert(parts[i] == encode_utf8(ascii_lowercase(after))[i - n]);
            assert(text[i] == after[i - n]);
        }
    }
    assert(bytes =~= parts);
    law_verbatim_text_contains_query(
        encode_utf8(ascii_lowercase(before)),
        encode_utf8(low_query),
        encode_utf8(ascii_lowercase(after)),
    );
}

/// The bytes of an ASCII text in lowercase are its characters.
proof fn lemma_lowered_bytes(s: Seq<char>)
    requires
        is_ascii_chars(s),
    ensures
        encode_utf8(ascii_lowercase(s)).len() == s.len(),
        forall|i: int|
            0 <= i < s.len() ==> #[trigger] encode_utf8(ascii_lowercase(s))[i] == ascii_lower(
                s[i],
            ) as u8,
{
    let low = ascii_lowercase(s);
    assert(is_ascii_chars(low)) by {
        assert forall|i: int| 0 <= i < low.len() implies '\0' <= #[trigger] low[i]
            <= '\u{7f}' by {
            assert(low[i] == ascii_lower(s[i]));
        }
    }
    vstd::utf8::is_ascii_chars_encode_utf8(low);
    assert forall|i: int| 0 <= i < s.len() implies #[trigger] encode_utf8(low)[i] == ascii_lower(
        s[i],
    ) as u8 by {
        assert(low[i] == ascii_lower(s[i]));
    }
}

} // verus!
