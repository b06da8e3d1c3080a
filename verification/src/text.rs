//! Text as sequences of characters: separators, words, substrings.

use vstd::prelude::*;

verus! {

/// `String::push` of std: appends one character.
pub assume_specification[ String::push ](text: &mut String, c: char)
    ensures
        final(text)@ == old(text)@.push(c),
;

/// The characters that separate the pieces of a text.
#[derive(Clone, Copy, PartialEq, Eq, Structural)]
pub enum Separator {
    /// Unicode white space.
    Space,
    /// The end of a line.
    Newline,
    /// `/`, between the segments of a path.
    Slash,
    /// `.`, between the labels of a domain.
    Dot,
    /// `.` or `-`, between the tokens of a domain.
    Token,
    /// `-` or `_`, between the words of a slug.
    Hyphen,
}

/// The characters with the Unicode property White_Space.
pub open spec fn is_white_space(c: char) -> bool {
    ||| '\u{9}' <= c <= '\u{d}'
    ||| c == ' '
    ||| c == '\u{85}'
    ||| c == '\u{a0}'
    ||| c == '\u{1680}'
    ||| '\u{2000}' <= c <= '\u{200a}'
    ||| '\u{2028}' <= c <= '\u{2029}'
    ||| c == '\u{202f}'
    ||| c == '\u{205f}'
    ||| c == '\u{3000}'
}

impl Separator {
    /// Whether `c` is one of the separator's characters.
    pub open spec fn is_sep(self, c: char) -> bool {
        match self {
            Separator::Space => is_white_space(c),
            Separator::Newline => c == '\n',
            Separator::Slash => c == '/',
            Separator::Dot => c == '.',
            Separator::Token => c == '.' || c == '-',
            Separator::Hyphen => c == '-' || c == '_',
        }
    }

    pub fn separates(self, c: char) -> (r: bool)
        ensures
            r == self.is_sep(c),
    {
        match self {
            Separator::Space => white_space(c),
            Separator::Newline => c == '\n',
            Separator::Slash => c == '/',
            Separator::Dot => c == '.',
            Separator::Token => c == '.' || c == '-',
            Separator::Hyphen => c == '-' || c == '_',
        }
    }
}

/// Whether `c` is white space.
pub fn white_space(c: char) -> (r: bool)
    ensures
        r == is_white_space(c),
{
    ('\u{9}' <= c && c <= '\u{d}') || c == ' ' || c == '\u{85}' || c == '\u{a0}' || c == '\u{1680}'
        || ('\u{2000}' <= c && c <= '\u{200a}') || c == '\u{2028}' || c == '\u{2029}' || c
        == '\u{202f}' || c == '\u{205f}' || c == '\u{3000}'
}

/// The pieces of `s` between its separators, empty ones included: one more
/// piece than there are separators.
pub open spec fn split(s: Seq<char>, sep: Separator) -> Seq<Seq<char>>
    decreases s.len(),
{
    if s.len() == 0 {
        seq![Seq::empty()]
    } else {
        let before = split(s.drop_last(), sep);
        if sep.is_sep(s.last()) {
            before.push(Seq::empty())
        } else {
            before.drop_last().push(before.last().push(s.last()))
        }
    }
}

/// The pieces of `s` between its separators that hold at least one character.
pub open spec fn words(s: Seq<char>, sep: Separator) -> Seq<Seq<char>> {
    split(s, sep).filter(|piece: Seq<char>| piece.len() > 0)
}

/// The number of separators in `s`.
pub open spec fn count_separators(s: Seq<char>, sep: Separator) -> nat
    decreases s.len(),
{
    if s.len() == 0 {
        0
    } else {
        count_separators(s.drop_last(), sep) + if sep.is_sep(s.last()) {
            1nat
        } else {
            0nat
        }
    }
}

/// Whether `needle` occurs in `s` at position `at`.
pub open spec fn occurs_at(s: Seq<char>, needle: Seq<char>, at: int) -> bool {
    0 <= at && at + needle.len() <= s.len() && s.subrange(at, at + needle.len()) == needle
}

/// Whether `needle` occurs somewhere in `s`.
pub open spec fn occurs(s: Seq<char>, needle: Seq<char>) -> bool {
    exists|at: int| occurs_at(s, needle, at)
}

/// Whether `at` is the position at which `needle` occurs first in `s`.
pub open spec fn occurs_first_at(s: Seq<char>, needle: Seq<char>, at: int) -> bool {
    occurs_at(s, needle, at) && forall|j: int| 0 <= j < at ==> !occurs_at(s, needle, j)
}

/// The part of `s` before the first `needle`, or all of it.
pub open spec fn before(s: Seq<char>, needle: Seq<char>) -> Seq<char> {
    if occurs(s, needle) {
        s.take(choose|at: int| occurs_first_at(s, needle, at))
    } else {
        s
    }
}

/// Whether `s` begins with `prefix`.
pub open spec fn begins(s: Seq<char>, prefix: Seq<char>) -> bool {
    occurs_at(s, prefix, 0)
}

/// Whether `s` ends with `suffix`.
pub open spec fn ends(s: Seq<char>, suffix: Seq<char>) -> bool {
    occurs_at(s, suffix, s.len() - suffix.len())
}

/// `s` without its leading white space.
pub open spec fn trim_start(s: Seq<char>) -> Seq<char>
    decreases s.len(),
{
    if s.len() > 0 && is_white_space(s[0]) {
        trim_start(s.drop_first())
    } else {
        s
    }
}

/// `s` without its trailing white space.
pub open spec fn trim_end(s: Seq<char>) -> Seq<char>
    decreases s.len(),
{
    if s.len() > 0 && is_white_space(s.last()) {
        trim_end(s.drop_last())
    } else {
        s
    }
}

/// `s` without its leading and trailing white space.
pub open spec fn trim(s: Seq<char>) -> Seq<char> {
    trim_end(trim_start(s))
}

/// A text has one piece more than separators.
pub proof fn lemma_pieces_are_separated(s: Seq<char>, sep: Separator)
    ensures
        split(s, sep).len() == count_separators(s, sep) + 1,
    decreases s.len(),
{
    if s.len() > 0 {
        lemma_pieces_are_separated(s.drop_last(), sep);
    }
}

/// The part of a text before something is what stands before its first
/// occurrence.
pub proof fn lemma_before(s: Seq<char>, needle: Seq<char>, at: int)
    requires
        occurs_first_at(s, needle, at),
    ensures
        before(s, needle) == s.take(at),
{
    let first = choose|k: int| occurs_first_at(s, needle, k);
    assert(occurs_first_at(s, needle, first));
}

/// The pieces of a text are made of its characters.
pub proof fn lemma_pieces_are_parts(s: Seq<char>, sep: Separator)
    ensures
        split(s, sep).len() > 0,
        forall|i: int, j: int|
            0 <= i < split(s, sep).len() && 0 <= j < split(s, sep)[i].len() ==> s.contains(
                #[trigger] split(s, sep)[i][j],
            ),
    decreases s.len(),
{
    if s.len() > 0 {
        let head = s.drop_last();
        let before = split(head, sep);
        lemma_pieces_are_parts(head, sep);
        assert forall|c: char| head.contains(c) implies s.contains(c) by {
            let k = choose|k: int| 0 <= k < head.len() && head[k] == c;
            assert(s[k] == c);
        }
        assert(s[s.len() - 1] == s.last());
        assert forall|i: int, j: int|
            0 <= i < split(s, sep).len() && 0 <= j < split(s, sep)[i].len() implies s.contains(
            #[trigger] split(s, sep)[i][j],
        ) by {
            if i < before.len() && j < before[i].len() {
                assert(head.contains(before[i][j]));
                assert(split(s, sep)[i][j] == before[i][j]);
            }
        }
    }
}

/// The words of a text are made of its characters.
pub proof fn lemma_words_are_parts(s: Seq<char>, sep: Separator)
    ensures
        forall|i: int, j: int|
            0 <= i < words(s, sep).len() && 0 <= j < words(s, sep)[i].len() ==> s.contains(
                #[trigger] words(s, sep)[i][j],
            ),
        forall|i: int| 0 <= i < words(s, sep).len() ==> (#[trigger] words(s, sep)[i]).len() > 0,
{
    let all = split(s, sep);
    let pred = |piece: Seq<char>| piece.len() > 0;
    lemma_pieces_are_parts(s, sep);
    assert forall|i: int, j: int|
        0 <= i < words(s, sep).len() && 0 <= j < words(s, sep)[i].len() implies s.contains(
        #[trigger] words(s, sep)[i][j],
    ) by {
        assert(all.filter(pred).contains(words(s, sep)[i]));
        all.lemma_filter_contains_rev(pred, words(s, sep)[i]);
        let k = choose|k: int| 0 <= k < all.len() && all[k] == words(s, sep)[i];
        assert(s.contains(all[k][j]));
    }
    assert forall|i: int| 0 <= i < words(s, sep).len() implies (#[trigger] words(s, sep)[i]).len()
        > 0 by {
        all.lemma_filter_pred(pred, i);
    }
}

/// The number of characters of all texts of a list.
pub open spec fn total_len(texts: Seq<Seq<char>>) -> nat
    decreases texts.len(),
{
    if texts.len() == 0 {
        0
    } else {
        total_len(texts.drop_last()) + texts.last().len()
    }
}

/// The first texts of a list have no more characters than all of them.
pub proof fn lemma_total_len(texts: Seq<Seq<char>>, n: int)
    requires
        0 <= n <= texts.len(),
    ensures
        total_len(texts.take(n)) <= total_len(texts),
    decreases texts.len() - n,
{
    if n < texts.len() {
        lemma_total_len(texts, n + 1);
        assert(texts.take(n + 1).drop_last() =~= texts.take(n));
    } else {
        assert(texts.take(n) =~= texts);
    }
}

/// The words of a text have no more characters than the text.
pub proof fn lemma_words_len(s: Seq<char>, sep: Separator)
    ensures
        total_len(words(s, sep)) <= s.len(),
{
    lemma_pieces_len(s, sep);
    lemma_filter_total_len(split(s, sep));
}

proof fn lemma_pieces_len(s: Seq<char>, sep: Separator)
    ensures
        total_len(split(s, sep)) <= s.len(),
    decreases s.len(),
{
    if s.len() == 0 {
        assert(split(s, sep).drop_last() =~= Seq::empty());
        assert(total_len(split(s, sep).drop_last()) == 0);
    } else {
        let before = split(s.drop_last(), sep);
        lemma_pieces_len(s.drop_last(), sep);
        lemma_pieces_are_parts(s.drop_last(), sep);
        if sep.is_sep(s.last()) {
            assert(split(s, sep).drop_last() =~= before);
        } else {
            assert(split(s, sep).drop_last() =~= before.drop_last());
        }
    }
}

proof fn lemma_filter_total_len(texts: Seq<Seq<char>>)
    ensures
        total_len(texts.filter(|piece: Seq<char>| piece.len() > 0)) <= total_len(texts),
    decreases texts.len(),
{
    reveal(Seq::filter);
    if texts.len() > 0 {
        let head = texts.drop_last();
        lemma_filter_total_len(head);
        let kept = head.filter(|piece: Seq<char>| piece.len() > 0);
        assert(kept.push(texts.last()).drop_last() =~= kept);
    }
}

/// What is left after the leading white space begins with none.
pub proof fn lemma_trim_start(s: Seq<char>)
    ensures
        trim_start(s).len() > 0 ==> !is_white_space(trim_start(s)[0]),
    decreases s.len(),
{
    if s.len() > 0 && is_white_space(s[0]) {
        lemma_trim_start(s.drop_first());
    }
}

/// What is left before the trailing white space ends with none, and begins as
/// the whole does.
pub proof fn lemma_trim_end(s: Seq<char>)
    ensures
        trim_end(s).len() > 0 ==> !is_white_space(trim_end(s).last()) && trim_end(s)[0] == s[0],
        trim_end(s).len() <= s.len(),
    decreases s.len(),
{
    if s.len() > 0 && is_white_space(s.last()) {
        lemma_trim_end(s.drop_last());
    }
}

/// The characters of a list of texts, text by text.
pub open spec fn views(texts: Seq<Vec<char>>) -> Seq<Seq<char>> {
    texts.map_values(|t: Vec<char>| t@)
}

/// The characters of a text.
pub fn chars_of(s: &str) -> (r: Vec<char>)
    ensures
        r@ == s@,
{
    let mut out: Vec<char> = Vec::new();
    for c in it: s.chars()
        invariant
            out@ == it.seq().take(it.index() as int),
            it.seq() == s@,
    {
        out.push(c);
    }
    out
}

/// The text that `chars` spell.
pub fn string_of(chars: &[char]) -> (r: String)
    ensures
        r@ == chars@,
{
    let mut out = String::new();
    for i in 0..chars.len()
        invariant
            out@ == chars@.take(i as int),
    {
        out.push(chars[i]);
        assert(chars@.take(i + 1) =~= chars@.take(i as int).push(chars@[i as int]));
    }
    assert(chars@.take(chars@.len() as int) =~= chars@);
    out
}

/// The pieces of `s` between its separators.
pub fn split_chars(s: &[char], sep: Separator) -> (r: Vec<Vec<char>>)
    ensures
        views(r@) == split(s@, sep),
{
    let mut out: Vec<Vec<char>> = Vec::new();
    let mut piece: Vec<char> = Vec::new();
    assert(views(out@).push(piece@) =~= split(s@.take(0), sep));
    for i in 0..s.len()
        invariant
            views(out@).push(piece@) == split(s@.take(i as int), sep),
    {
        let ghost before = views(out@).push(piece@);
        assert(s@.take(i + 1).drop_last() =~= s@.take(i as int));
        assert(before.drop_last() =~= views(out@));
        if sep.separates(s[i]) {
            out.push(piece);
            piece = Vec::new();
            assert(views(out@) =~= before);
        } else {
            piece.push(s[i]);
        }
    }
    assert(s@.take(s@.len() as int) =~= s@);
    out.push(piece);
    assert(views(out@) =~= split(s@, sep));
    out
}

/// The pieces of `s` between its separators that hold at least one character.
pub fn words_of(s: &[char], sep: Separator) -> (r: Vec<Vec<char>>)
    ensures
        views(r@) == words(s@, sep),
{
    let pieces = split_chars(s, sep);
    let mut out: Vec<Vec<char>> = Vec::new();
    let ghost all = views(pieces@);
    let ghost kept = |piece: Seq<char>| piece.len() > 0;
    reveal(Seq::filter);
    assert(all.take(0) =~= Seq::empty());
    assert(views(out@) =~= all.take(0).filter(kept));
    let n = pieces.len();
    for piece in it: pieces
        invariant
            n == pieces@.len(),
            it.seq() == pieces@,
            all == views(pieces@),
            kept == (|piece: Seq<char>| piece.len() > 0),
            views(out@) == all.take(it.index() as int).filter(kept),
    {
        let ghost i = it.index();
        reveal(Seq::filter);
        assert(all.take(i + 1).drop_last() =~= all.take(i));
        assert(all.take(i + 1).last() == piece@);
        let ghost before = views(out@);
        if piece.len() > 0 {
            out.push(piece);
            assert(views(out@) =~= before.push(piece@));
        }
    }
    assert(all.take(n as int) =~= all);
    out
}

/// The number of separators in `s`.
pub fn separators_in(s: &[char], sep: Separator) -> (r: usize)
    ensures
        r == count_separators(s@, sep),
        r <= s@.len(),
{
    let mut n: usize = 0;
    for i in 0..s.len()
        invariant
            n == count_separators(s@.take(i as int), sep),
            n <= i,
    {
        assert(s@.take(i + 1).drop_last() =~= s@.take(i as int));
        if sep.separates(s[i]) {
            n = n + 1;
        }
    }
    assert(s@.take(s@.len() as int) =~= s@);
    n
}

/// Whether `needle` occurs in `s` at position `at`.
pub fn found_at(s: &[char], needle: &[char], at: usize) -> (r: bool)
    ensures
        r == occurs_at(s@, needle@, at as int),
{
    if at > s.len() || s.len() - at < needle.len() {
        return false;
    }
    for i in 0..needle.len()
        invariant
            at + needle@.len() <= s.len(),
            forall|j: int| 0 <= j < i ==> s@[at + j] == needle@[j],
    {
        if s[at + i] != needle[i] {
            assert(s@.subrange(at as int, at + needle@.len())[i as int] != needle@[i as int]);
            return false;
        }
    }
    assert(s@.subrange(at as int, at + needle@.len()) =~= needle@);
    true
}

/// The first position at which `needle` occurs in `s`.
pub fn find(s: &[char], needle: &[char]) -> (r: Option<usize>)
    ensures
        match r {
            Some(at) => occurs_at(s@, needle@, at as int) && forall|j: int|
                0 <= j < at ==> !occurs_at(s@, needle@, j),
            None => !occurs(s@, needle@),
        },
{
    if s.len() < needle.len() {
        return None;
    }
    let last = s.len() - needle.len();
    let mut at: usize = 0;
    while at < last
        invariant
            last + needle@.len() == s@.len(),
            at <= last,
            forall|j: int| 0 <= j < at ==> !occurs_at(s@, needle@, j),
        decreases last - at,
    {
        if found_at(s, needle, at) {
            return Some(at);
        }
        at = at + 1;
    }
    if found_at(s, needle, at) {
        Some(at)
    } else {
        None
    }
}

/// The first position at which the character `c` stands in `s`.
pub fn find_char(s: &[char], c: char) -> (r: Option<usize>)
    ensures
        match r {
            Some(at) => s@.contains(c) && s@.index_of_first(c) == Some(at as int) && at < s@.len(),
            None => !s@.contains(c),
        },
{
    proof {
        s@.index_of_first_ensures(c);
    }
    for i in 0..s.len()
        invariant
            forall|j: int| 0 <= j < i ==> s@[j] != c,
    {
        if s[i] == c {
            proof {
                s@.index_of_first_ensures(c);
            }
            return Some(i);
        }
    }
    None
}

/// Whether `needle` occurs somewhere in `s`.
pub fn contains(s: &[char], needle: &str) -> (r: bool)
    ensures
        r == occurs(s@, needle@),
{
    let needle = chars_of(needle);
    find(s, &needle).is_some()
}

/// Whether `s` begins with `prefix`.
pub fn starts_with(s: &[char], prefix: &str) -> (r: bool)
    ensures
        r == begins(s@, prefix@),
{
    let prefix = chars_of(prefix);
    found_at(s, &prefix, 0)
}

/// Whether `s` ends with `suffix`.
pub fn ends_with(s: &[char], suffix: &str) -> (r: bool)
    ensures
        r == ends(s@, suffix@),
{
    let suffix = chars_of(suffix);
    if s.len() < suffix.len() {
        false
    } else {
        found_at(s, &suffix, s.len() - suffix.len())
    }
}

/// Appends a text to another.
pub fn append(text: &mut String, more: &str)
    ensures
        final(text)@ == old(text)@ + more@,
{
    let chars = chars_of(more);
    assert(old(text)@ + chars@.take(0) =~= old(text)@);
    for i in 0..chars.len()
        invariant
            text@ == old(text)@ + chars@.take(i as int),
    {
        text.push(chars[i]);
        assert(chars@.take(i + 1) =~= chars@.take(i as int).push(chars@[i as int]));
        assert(text@ =~= old(text)@ + chars@.take(i + 1));
    }
    assert(chars@.take(chars@.len() as int) =~= chars@);
}

/// Whether two texts are the same.
pub fn same_text(a: &str, b: &str) -> (r: bool)
    ensures
        r == (a@ == b@),
{
    let a = chars_of(a);
    let b = chars_of(b);
    assert(a@.subrange(0, a@.len() as int) =~= a@);
    a.len() == b.len() && found_at(&a, &b, 0)
}

/// `s` without its leading and trailing white space.
pub fn trimmed(s: &[char]) -> (r: &[char])
    ensures
        r@ == trim(s@),
{
    let mut from: usize = 0;
    assert(s@.skip(0) =~= s@);
    while from < s.len() && white_space(s[from])
        invariant
            from <= s@.len(),
            trim_start(s@) == trim_start(s@.skip(from as int)),
        decreases s@.len() - from,
    {
        assert(s@.skip(from as int).drop_first() =~= s@.skip(from + 1));
        from = from + 1;
    }
    let ghost rest = s@.skip(from as int);
    let mut to: usize = s.len();
    assert(s@.subrange(from as int, to as int) =~= rest);
    while to > from && white_space(s[to - 1])
        invariant
            from <= to <= s@.len(),
            trim_end(rest) == trim_end(s@.subrange(from as int, to as int)),
        decreases to,
    {
        assert(s@.subrange(from as int, to as int).drop_last() =~= s@.subrange(
            from as int,
            to - 1,
        ));
        to = to - 1;
    }
    &s[from..to]
}

} // verus!
