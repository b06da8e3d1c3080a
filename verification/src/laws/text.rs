//! Laws of texts: pieces, words, occurrences and white space.

use crate::text::{
    before, begins, count_separators, ends, is_white_space, occurs, occurs_at, occurs_first_at,
    split, total_len, trim, trim_end, trim_start, words, Separator,
};
use vstd::prelude::*;

verus! {

/// What separates: the characters of each separator, white space by the numbers
/// of the characters.
pub proof fn law_separating_characters(c: char)
    ensures
        Separator::Newline.is_sep(c) <==> c == '\n',
        Separator::Slash.is_sep(c) <==> c == '/',
        Separator::Dot.is_sep(c) <==> c == '.',
        Separator::Token.is_sep(c) <==> c == '.' || c == '-',
        Separator::Hyphen.is_sep(c) <==> c == '-' || c == '_',
        Separator::Space.is_sep(c) <==> is_white_space(c),
        is_white_space(c) <==> {
            let n = c as u32;
            9 <= n <= 13 || n == 32 || n == 0x85 || n == 0xa0 || n == 0x1680 || 0x2000 <= n
                <= 0x200a || n == 0x2028 || n == 0x2029 || n == 0x202f || n == 0x205f || n
                == 0x3000
        },
{
}

/// A text without separators is one piece, and one word unless it is empty.
pub proof fn law_unseparated_text_is_one_piece(s: Seq<char>, sep: Separator)
    requires
        forall|i: int| 0 <= i < s.len() ==> !sep.is_sep(#[trigger] s[i]),
    ensures
        split(s, sep) == seq![s],
        words(s, sep) == if s.len() == 0 {
            Seq::empty()
        } else {
            seq![s]
        },
    decreases s.len(),
{
    reveal(Seq::filter);
    if s.len() > 0 {
        let head = s.drop_last();
        assert forall|i: int| 0 <= i < head.len() implies !sep.is_sep(#[trigger] head[i]) by {
            assert(head[i] == s[i]);
        }
        law_unseparated_text_is_one_piece(head, sep);
        assert(!sep.is_sep(s[s.len() - 1]));
        let before = split(head, sep);
        assert(before.drop_last() =~= Seq::empty());
        assert(before.last().push(s.last()) =~= s);
        assert(split(s, sep) =~= seq![s]);
    } else {
        assert(s =~= Seq::empty());
        assert(split(s, sep) =~= seq![s]);
    }
    let one = seq![s];
    assert(one.drop_last() =~= Seq::empty());
    assert(one.drop_last().filter(|piece: Seq<char>| piece.len() > 0) =~= Seq::empty());
    assert(words(s, sep) =~= if s.len() == 0 {
        Seq::empty()
    } else {
        seq![s]
    });
}

/// A separator parts the pieces, and the words, on its two sides.
pub proof fn law_separators_part(a: Seq<char>, c: char, b: Seq<char>, sep: Separator)
    requires
        sep.is_sep(c),
    ensures
        split(a.push(c) + b, sep) == split(a, sep) + split(b, sep),
        words(a.push(c) + b, sep) == words(a, sep) + words(b, sep),
{
    lemma_split_parts(a, c, b, sep);
    Seq::filter_distributes_over_add(
        split(a, sep),
        split(b, sep),
        |piece: Seq<char>| piece.len() > 0,
    );
}

proof fn lemma_split_parts(a: Seq<char>, c: char, b: Seq<char>, sep: Separator)
    requires
        sep.is_sep(c),
    ensures
        split(a.push(c) + b, sep) == split(a, sep) + split(b, sep),
        split(b, sep).len() > 0,
    decreases b.len(),
{
    let whole = a.push(c) + b;
    if b.len() == 0 {
        assert(whole.drop_last() =~= a);
        assert(split(whole, sep) =~= split(a, sep) + split(b, sep));
    } else {
        lemma_split_parts(a, c, b.drop_last(), sep);
        assert(whole.drop_last() =~= a.push(c) + b.drop_last());
        let left = split(a, sep);
        let right = split(b.drop_last(), sep);
        assert((left + right).drop_last() =~= left + right.drop_last());
        assert((left + right).last() == right.last());
        assert(split(whole, sep) =~= left + split(b, sep));
    }
}

/// Separators are counted by their positions.
pub proof fn law_separators_are_counted(s: Seq<char>, sep: Separator)
    ensures
        count_separators(s, sep) == Set::new(
            |i: int| 0 <= i < s.len() && sep.is_sep(s[i]),
        ).len(),
        Set::new(|i: int| 0 <= i < s.len() && sep.is_sep(s[i])).finite(),
        split(s, sep).len() == Set::new(|i: int| 0 <= i < s.len() && sep.is_sep(s[i])).len() + 1,
    decreases s.len(),
{
    let all = Set::new(|i: int| 0 <= i < s.len() && sep.is_sep(s[i]));
    if s.len() == 0 {
        assert(all =~= Set::empty());
    } else {
        let n = s.len() - 1;
        let head = s.drop_last();
        let some = Set::new(|i: int| 0 <= i < head.len() && sep.is_sep(head[i]));
        law_separators_are_counted(head, sep);
        if sep.is_sep(s[n]) {
            assert(all =~= some.insert(n));
        } else {
            assert(all =~= some);
        }
    }
}

/// A text occurs in another where the other is made of it and what is around
/// it.
pub proof fn law_occurrences(s: Seq<char>, needle: Seq<char>)
    ensures
        occurs(s, needle) <==> exists|a: Seq<char>, b: Seq<char>| s == #[trigger] ((a + needle) + b),
        begins(s, needle) <==> exists|b: Seq<char>| s == #[trigger] (needle + b),
        ends(s, needle) <==> exists|a: Seq<char>| s == #[trigger] (a + needle),
{
    if occurs(s, needle) {
        let at = choose|at: int| occurs_at(s, needle, at);
        assert(s =~= (s.take(at) + needle) + s.skip(at + needle.len()));
    }
    if exists|a: Seq<char>, b: Seq<char>| s == #[trigger] ((a + needle) + b) {
        let (a, b) = choose|a: Seq<char>, b: Seq<char>| s == #[trigger] ((a + needle) + b);
        let at = a.len() as int;
        assert(s.subrange(at, at + needle.len()) =~= needle);
        assert(occurs_at(s, needle, at));
    }
    if begins(s, needle) {
        assert(s =~= needle + s.skip(needle.len() as int));
    }
    if exists|b: Seq<char>| s == #[trigger] (needle + b) {
        let b = choose|b: Seq<char>| s == #[trigger] (needle + b);
        assert(s.subrange(0, needle.len() as int) =~= needle);
    }
    if ends(s, needle) {
        assert(s =~= s.take(s.len() - needle.len()) + needle);
    }
    if exists|a: Seq<char>| s == #[trigger] (a + needle) {
        let a = choose|a: Seq<char>| s == #[trigger] (a + needle);
        assert(s.subrange(s.len() - needle.len(), s.len() as int) =~= needle);
    }
}

/// What stands before a text is followed by it, and holds it nowhere, not even
/// with the text's own beginning; where it does not occur, all stands before.
pub proof fn law_before(s: Seq<char>, needle: Seq<char>)
    requires
        needle.len() > 0,
    ensures
        !occurs(s, needle) ==> before(s, needle) == s,
        occurs(s, needle) ==> exists|rest: Seq<char>|
            s == #[trigger] (before(s, needle) + needle + rest),
        occurs(s, needle) ==> !occurs(before(s, needle) + needle.drop_last(), needle),
{
    if occurs(s, needle) {
        let at = choose|at: int| occurs_at(s, needle, at);
        let first = lemma_first(s, needle, at);
        crate::text::lemma_before(s, needle, first);
        let front = before(s, needle);
        assert(s =~= front + needle + s.skip(first + needle.len()));
        let part = front + needle.drop_last();
        if occurs(part, needle) {
            let k = choose|k: int| occurs_at(part, needle, k);
            assert(s.subrange(k, k + needle.len()) =~= part.subrange(k, k + needle.len())) by {
                assert(s.subrange(first, first + needle.len()) == needle);
                assert forall|j: int| 0 <= j < part.len() implies s[j] == #[trigger] part[j] by {
                    if j >= first {
                        assert(s.subrange(first, first + needle.len())[j - first] == s[j]);
                    }
                }
            }
            assert(occurs_at(s, needle, k));
        }
    }
}

proof fn lemma_first(s: Seq<char>, needle: Seq<char>, at: int) -> (first: int)
    requires
        occurs_at(s, needle, at),
    ensures
        occurs_first_at(s, needle, first),
    decreases at,
{
    if exists|j: int| 0 <= j < at && occurs_at(s, needle, j) {
        let j = choose|j: int| 0 <= j < at && occurs_at(s, needle, j);
        lemma_first(s, needle, j)
    } else {
        at
    }
}

/// Whether a text is all white space.
pub open spec fn is_blank(s: Seq<char>) -> bool {
    forall|i: int| 0 <= i < s.len() ==> is_white_space(#[trigger] s[i])
}

/// A text is what trimming leaves of it, with white space around, and that has
/// no white space at its ends.
pub proof fn law_trim(s: Seq<char>)
    ensures
        exists|a: Seq<char>, b: Seq<char>|
            is_blank(a) && is_blank(b) && s == #[trigger] ((a + trim(s)) + b),
        trim(s).len() > 0 ==> !is_white_space(trim(s)[0]) && !is_white_space(trim(s).last()),
{
    let a = lemma_trim_start_parts(s);
    let b = lemma_trim_end_parts(trim_start(s));
    crate::text::lemma_trim_start(s);
    crate::text::lemma_trim_end(trim_start(s));
    assert((a + trim(s)) + b =~= a + (trim(s) + b));
}

/// A text without white space at its ends is what trimming leaves, whatever
/// white space is around it.
pub proof fn law_trimmed(a: Seq<char>, text: Seq<char>, b: Seq<char>)
    requires
        is_blank(a),
        is_blank(b),
        text.len() > 0 ==> !is_white_space(text[0]) && !is_white_space(text.last()),
    ensures
        trim((a + text) + b) == text,
    decreases a.len() + b.len(),
{
    let s = (a + text) + b;
    if text.len() == 0 {
        assert(is_blank(s)) by {
            assert forall|i: int| 0 <= i < s.len() implies is_white_space(#[trigger] s[i]) by {
                if i < a.len() {
                    assert(s[i] == a[i]);
                } else {
                    assert(s[i] == b[i - a.len()]);
                }
            }
        }
        lemma_blank(s);
        assert(trim(s) =~= text);
    } else {
        lemma_trim_start_of(a, text + b);
        assert(a + (text + b) =~= s);
        lemma_trim_end_of(text, b);
    }
}

proof fn lemma_blank(s: Seq<char>)
    requires
        is_blank(s),
    ensures
        trim_start(s).len() == 0,
    decreases s.len(),
{
    if s.len() > 0 {
        let rest = s.drop_first();
        assert forall|i: int| 0 <= i < rest.len() implies is_white_space(#[trigger] rest[i]) by {
            assert(rest[i] == s[i + 1]);
        }
        assert(is_white_space(s[0]));
        lemma_blank(rest);
    }
}

proof fn lemma_trim_start_of(a: Seq<char>, rest: Seq<char>)
    requires
        is_blank(a),
        rest.len() > 0,
        !is_white_space(rest[0]),
    ensures
        trim_start(a + rest) == rest,
    decreases a.len(),
{
    let s = a + rest;
    if a.len() == 0 {
        assert(s =~= rest);
    } else {
        let more = a.drop_first();
        assert forall|i: int| 0 <= i < more.len() implies is_white_space(#[trigger] more[i]) by {
            assert(more[i] == a[i + 1]);
        }
        assert(s[0] == a[0]);
        assert(s.drop_first() =~= more + rest);
        lemma_trim_start_of(more, rest);
    }
}

proof fn lemma_trim_end_of(text: Seq<char>, b: Seq<char>)
    requires
        is_blank(b),
        text.len() > 0,
        !is_white_space(text.last()),
    ensures
        trim_end(text + b) == text,
    decreases b.len(),
{
    let s = text + b;
    if b.len() == 0 {
        assert(s =~= text);
    } else {
        let less = b.drop_last();
        assert forall|i: int| 0 <= i < less.len() implies is_white_space(#[trigger] less[i]) by {
            assert(less[i] == b[i]);
        }
        assert(s.last() == b[b.len() - 1]);
        assert(s.drop_last() =~= text + less);
        lemma_trim_end_of(text, less);
    }
}

proof fn lemma_trim_start_parts(s: Seq<char>) -> (a: Seq<char>)
    ensures
        is_blank(a),
        s == a + trim_start(s),
    decreases s.len(),
{
    if s.len() > 0 && is_white_space(s[0]) {
        let rest = lemma_trim_start_parts(s.drop_first());
        let a = seq![s[0]] + rest;
        assert(a + trim_start(s) =~= s) by {
            assert(s =~= seq![s[0]] + s.drop_first());
        }
        assert forall|i: int| 0 <= i < a.len() implies is_white_space(#[trigger] a[i]) by {
            if i > 0 {
                assert(a[i] == rest[i - 1]);
            }
        }
        a
    } else {
        assert(Seq::<char>::empty() + s =~= s);
        Seq::empty()
    }
}

proof fn lemma_trim_end_parts(s: Seq<char>) -> (b: Seq<char>)
    ensures
        is_blank(b),
        s == trim_end(s) + b,
    decreases s.len(),
{
    if s.len() > 0 && is_white_space(s.last()) {
        let rest = lemma_trim_end_parts(s.drop_last());
        let b = rest.push(s.last());
        assert(trim_end(s) + b =~= s) by {
            assert(s =~= s.drop_last().push(s.last()));
        }
        assert forall|i: int| 0 <= i < b.len() implies is_white_space(#[trigger] b[i]) by {
            if i < rest.len() {
                assert(b[i] == rest[i]);
            }
        }
        b
    } else {
        assert(s + Seq::<char>::empty() =~= s);
        Seq::empty()
    }
}

/// The characters of two lists of texts are those of the one and of the other.
pub proof fn law_total_len_adds(a: Seq<Seq<char>>, b: Seq<Seq<char>>, text: Seq<char>)
    ensures
        total_len(a + b) == total_len(a) + total_len(b),
        total_len(seq![text]) == text.len(),
    decreases b.len(),
{
    let one = seq![text];
    assert(one.drop_last() =~= Seq::empty());
    assert(total_len(one.drop_last()) == 0);
    if b.len() == 0 {
        assert(a + b =~= a);
    } else {
        law_total_len_adds(a, b.drop_last(), text);
        assert((a + b).drop_last() =~= a + b.drop_last());
    }
}

} // verus!
