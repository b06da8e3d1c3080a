//! Laws of the relevance of results to queries.

use crate::laws::text::law_unseparated_text_is_one_piece;
use crate::relevance::{
    code, folded, law_ascii_is_lowered, law_trigrams_are_windows, normalized, query_words,
    relevance, stands_at, text_trigrams, trigram_codes, WordMatch,
};
use crate::text::{is_white_space, words, Separator};
use crate::unicode::{ascii_lowercase, decomposed, lowered_char};
use vstd::prelude::*;
use vstd::utf8::{encode_utf8, is_ascii_chars};

verus! {

// --- Folding ---

/// Folding goes character by character: combining marks leave, and any other
/// character becomes its lowercase form. Texts are decomposed before.
pub proof fn law_folding_goes_by_characters(a: Seq<char>, b: Seq<char>, c: char)
    ensures
        folded(a + b) == folded(a) + folded(b),
        folded(seq![c]) == if 0x300 <= c as u32 <= 0x36f {
            Seq::empty()
        } else {
            lowered_char(c)
        },
        normalized(a) == folded(decomposed(a)),
    decreases b.len(),
{
    let one = seq![c];
    assert(one.drop_last() =~= Seq::empty());
    assert(folded(one.drop_last()) =~= Seq::empty());
    assert(folded(one) =~= if 0x300 <= c as u32 <= 0x36f {
        Seq::empty()
    } else {
        lowered_char(c)
    });
    if b.len() == 0 {
        assert(a + b =~= a);
        assert(folded(a) + folded(b) =~= folded(a));
    } else {
        law_folding_goes_by_characters(a, b.drop_last(), c);
        assert((a + b).drop_last() =~= a + b.drop_last());
        assert(folded(a + b) =~= folded(a) + folded(b));
    }
}

// --- Trigrams ---

/// Three bytes are a trigram of a text of at least three bytes where they stand
/// next to each other in its folded form.
pub proof fn law_trigrams_of_texts(s: Seq<char>, a: u8, b: u8, c: u8)
    ensures
        text_trigrams(s).contains(code(a, b, c)) <==> encode_utf8(s).len() >= 3 && exists|at: int|
            stands_at(encode_utf8(normalized(s)), a, b, c, at),
        forall|n: u32| #[trigger]
            text_trigrams(s).contains(n) ==> exists|x: u8, y: u8, z: u8| n == code(x, y, z),
{
    law_trigrams_are_windows(encode_utf8(normalized(s)), a, b, c);
    assert forall|n: u32| #[trigger] text_trigrams(s).contains(n) implies exists|
        x: u8,
        y: u8,
        z: u8,
    | n == code(x, y, z) by {
        lemma_codes(encode_utf8(normalized(s)), n);
    }
}

proof fn lemma_codes(bytes: Seq<u8>, n: u32)
    requires
        trigram_codes(bytes).contains(n),
    ensures
        exists|x: u8, y: u8, z: u8| n == code(x, y, z),
    decreases bytes.len(),
{
    if bytes.len() >= 3 {
        let m = bytes.len() as int;
        if n != code(bytes[m - 3], bytes[m - 2], bytes[m - 1]) {
            lemma_codes(bytes.drop_last(), n);
        }
    }
}

/// The trigrams of a text are finitely many, and there is one where the text
/// and its folded form have three bytes.
pub proof fn law_three_bytes_make_a_trigram(s: Seq<char>)
    ensures
        text_trigrams(s).finite(),
        text_trigrams(s).len() > 0 <==> encode_utf8(s).len() >= 3 && encode_utf8(
            normalized(s),
        ).len() >= 3,
        text_trigrams(s) != Set::<u32>::empty() <==> text_trigrams(s).len() > 0,
{
    let bytes = encode_utf8(normalized(s));
    lemma_finite(bytes);
    if bytes.len() >= 3 {
        let m = bytes.len() as int;
        let last = code(bytes[m - 3], bytes[m - 2], bytes[m - 1]);
        assert(trigram_codes(bytes).contains(last));
        if trigram_codes(bytes).len() == 0 {
            assert(trigram_codes(bytes) =~= Set::empty());
        }
    }
    if text_trigrams(s).len() == 0 {
        assert(text_trigrams(s) =~= Set::empty());
    }
}

proof fn lemma_finite(bytes: Seq<u8>)
    ensures
        trigram_codes(bytes).finite(),
        bytes.len() == 3 ==> trigram_codes(bytes).len() == 1,
    decreases bytes.len(),
{
    if bytes.len() >= 3 {
        lemma_finite(bytes.drop_last());
        if bytes.len() == 3 {
            assert(trigram_codes(bytes.drop_last()) =~= Set::empty());
        }
    }
}

// --- Words of a query ---

/// Whether the word at position `i` has trigrams.
pub open spec fn tells(sets: Seq<Set<u32>>, i: int) -> bool {
    0 <= i < sets.len() && exists|n: u32| sets[i].contains(n)
}

/// How many of the first `i` words have trigrams.
pub open spec fn telling_before(sets: Seq<Set<u32>>, i: int) -> nat {
    Set::new(|j: int| 0 <= j < i && tells(sets, j)).len()
}

/// Each word of a query that has trigrams is counted, in its turn, by how many
/// it has, and how many of these the title and the description have; no other
/// word is.
pub proof fn law_every_telling_word_is_counted(
    sets: Seq<Set<u32>>,
    title: Set<u32>,
    description: Set<u32>,
)
    ensures
        relevance(sets, title, description).len() == telling_before(sets, sets.len() as int),
        forall|i: int| #[trigger]
            tells(sets, i) ==> {
                let k = telling_before(sets, i) as int;
                &&& 0 <= k < relevance(sets, title, description).len()
                &&& relevance(sets, title, description)[k].trigrams == sets[i].len()
                &&& relevance(sets, title, description)[k].in_title == sets[i].intersect(
                    title,
                ).len()
                &&& relevance(sets, title, description)[k].in_description == sets[i].intersect(
                    description,
                ).len()
            },
    decreases sets.len(),
{
    reveal(Seq::filter);
    let n = sets.len() as int;
    lemma_telling_before(sets, n);
    if n > 0 {
        let head = sets.drop_last();
        law_every_telling_word_is_counted(head, title, description);
        lemma_telling_before(sets, n - 1);
        assert forall|i: int| 0 <= i < n implies (tells(head, i) <==> #[trigger] tells(sets, i) && i
            < n - 1) by {
            if i < n - 1 {
                assert(head[i] == sets[i]);
            }
        }
        assert forall|i: int| 0 <= i <= n - 1 implies #[trigger] telling_before(head, i)
            == telling_before(sets, i) by {
            assert(Set::new(|j: int| 0 <= j < i && tells(head, j)) =~= Set::new(
                |j: int| 0 <= j < i && tells(sets, j),
            ));
        }
        let before = relevance(head, title, description);
        let after = relevance(sets, title, description);
        assert(telling_before(head, n - 1) == telling_before(sets, n - 1));
        let last = sets[n - 1];
        assert(tells(sets, n - 1) <==> last != Set::<u32>::empty()) by {
            if last != Set::<u32>::empty() {
                if !(exists|m: u32| last.contains(m)) {
                    assert(last =~= Set::empty());
                }
            }
        }
        assert(before.len() == telling_before(sets, n - 1));
        assert forall|k: int| 0 <= k < before.len() implies after[k] == #[trigger] before[k] by {}
        assert forall|i: int| #[trigger] tells(sets, i) implies {
            let k = telling_before(sets, i) as int;
            &&& 0 <= k < after.len()
            &&& after[k].trigrams == sets[i].len()
            &&& after[k].in_title == sets[i].intersect(title).len()
            &&& after[k].in_description == sets[i].intersect(description).len()
        } by {
            if i < n - 1 {
                assert(tells(head, i));
                assert(head[i] == sets[i]);
                assert(telling_before(head, i) == telling_before(sets, i));
            }
        }
    }
}

proof fn lemma_telling_before(sets: Seq<Set<u32>>, n: int)
    requires
        0 <= n <= sets.len(),
    ensures
        n == 0 ==> telling_before(sets, n) == 0,
        n > 0 ==> telling_before(sets, n) == telling_before(sets, n - 1) + if tells(sets, n - 1) {
            1nat
        } else {
            0nat
        },
        Set::new(|j: int| 0 <= j < n && tells(sets, j)).finite(),
    decreases n,
{
    let all = Set::new(|j: int| 0 <= j < n && tells(sets, j));
    if n == 0 {
        assert(all =~= Set::empty());
    } else {
        lemma_telling_before(sets, n - 1);
        let some = Set::new(|j: int| 0 <= j < n - 1 && tells(sets, j));
        if tells(sets, n - 1) {
            assert(all =~= some.insert(n - 1));
        } else {
            assert(all =~= some);
        }
    }
}

/// The words of a query are those between its white space, each with the
/// trigrams of its text.
pub proof fn law_words_of_queries(query: Seq<char>)
    ensures
        query_words(query).len() == words(query, Separator::Space).len(),
        forall|i: int|
            0 <= i < query_words(query).len() ==> #[trigger] query_words(query)[i]
                == text_trigrams(words(query, Separator::Space)[i]),
{
}

/// A query of one ASCII word of three or more letters counts once, with as many
/// trigrams as the word has, which is one for three letters.
pub proof fn law_three_letter_words_count(
    query: Seq<char>,
    title: Set<u32>,
    description: Set<u32>,
)
    requires
        is_ascii_chars(query),
        query.len() >= 3,
        forall|i: int| 0 <= i < query.len() ==> !is_white_space(#[trigger] query[i]),
    ensures
        relevance(query_words(query), title, description).len() == 1,
        relevance(query_words(query), title, description)[0].trigrams == text_trigrams(query).len(),
        text_trigrams(query).len() > 0,
        query.len() == 3 ==> text_trigrams(query).len() == 1,
{
    assert forall|i: int| 0 <= i < query.len() implies !Separator::Space.is_sep(
        #[trigger] query[i],
    ) by {}
    law_unseparated_text_is_one_piece(query, Separator::Space);
    law_ascii_is_lowered(query);
    let low = ascii_lowercase(query);
    assert(is_ascii_chars(low)) by {
        assert forall|i: int| 0 <= i < low.len() implies '\0' <= #[trigger] low[i]
            <= '\u{7f}' by {
            assert(low[i] == crate::unicode::ascii_lower(query[i]));
            assert('\0' <= query[i] <= '\u{7f}');
        }
    }
    vstd::utf8::is_ascii_chars_encode_utf8(query);
    vstd::utf8::is_ascii_chars_encode_utf8(low);
    law_three_bytes_make_a_trigram(query);
    lemma_finite(encode_utf8(low));
    let sets = query_words(query);
    assert(sets.len() == 1 && sets[0] == text_trigrams(query));
    if !tells(sets, 0) {
        assert(sets[0] =~= Set::empty());
    }
    law_every_telling_word_is_counted(sets, title, description);
    lemma_telling_before(sets, 0);
    lemma_telling_before(sets, 1);
}

/// The counts are the fields that hold them.
pub proof fn law_matches_are_their_fields(matched: WordMatch)
    ensures
        matched@.trigrams == matched.trigrams,
        matched@.in_title == matched.in_title,
        matched@.in_description == matched.in_description,
{
}

} // verus!
