//! Letter case and canonical decomposition, as Unicode defines them.

use unicode_normalization::UnicodeNormalization;
use vstd::prelude::*;
use vstd::utf8::is_ascii_chars;

verus! {

/// The lowercase form of an ASCII character.
pub open spec fn ascii_lower(c: char) -> char {
    if 'A' <= c <= 'Z' {
        ((c as u32) + 32) as char
    } else {
        c
    }
}

/// The lowercase form of an ASCII text.
pub open spec fn ascii_lowercase(s: Seq<char>) -> Seq<char> {
    s.map_values(|c: char| ascii_lower(c))
}

/// The lowercase form of a text, whose letters may depend on their neighbours.
pub uninterp spec fn lowercase_text(s: Seq<char>) -> Seq<char>;

/// The lowercase form of a text, which for ASCII text is that of each character.
pub open spec fn lowered(s: Seq<char>) -> Seq<char> {
    if is_ascii_chars(s) {
        ascii_lowercase(s)
    } else {
        lowercase_text(s)
    }
}

/// `str::to_lowercase` of std: the lowercase form of a text, which for ASCII
/// text is that of each character.
#[verifier::external_body]
pub(crate) fn text_to_lowercase(s: &str) -> (r: String)
    ensures
        r@ == lowercase_text(s@),
        is_ascii_chars(s@) ==> r@ == ascii_lowercase(s@),
{
    s.to_lowercase()
}

/// The lowercase form of a single character, which may be several characters.
pub uninterp spec fn lowercase_char(c: char) -> Seq<char>;

/// The lowercase form of a single character, which for an ASCII character is
/// one.
pub open spec fn lowered_char(c: char) -> Seq<char> {
    if c <= '\u{7f}' {
        seq![ascii_lower(c)]
    } else {
        lowercase_char(c)
    }
}

/// `char::to_lowercase` of std: the lowercase form of a character taken by
/// itself.
#[verifier::external_body]
pub(crate) fn char_to_lowercase(c: char) -> (r: Vec<char>)
    ensures
        r@ == lowercase_char(c),
        c <= '\u{7f}' ==> r@ == seq![ascii_lower(c)],
{
    c.to_lowercase().collect()
}

/// Whether a character has the Unicode property Uppercase.
pub uninterp spec fn uppercase_char(c: char) -> bool;

/// Whether a character is an uppercase letter, which among the ASCII characters
/// are `A` to `Z`.
pub open spec fn is_upper(c: char) -> bool {
    if c <= '\u{7f}' {
        'A' <= c <= 'Z'
    } else {
        uppercase_char(c)
    }
}

/// `char::is_uppercase` of std: whether a character has the property
/// Uppercase, which among the ASCII characters the letters `A` to `Z` have.
#[verifier::external_body]
pub(crate) fn char_is_uppercase(c: char) -> (r: bool)
    ensures
        r == uppercase_char(c),
        c <= '\u{7f}' ==> r == ('A' <= c <= 'Z'),
{
    c.is_uppercase()
}

/// The canonical decomposition of a text, Unicode Normalization Form D.
pub uninterp spec fn decomposition(s: Seq<char>) -> Seq<char>;

/// The canonical decomposition of a text, which for ASCII text is the text.
pub open spec fn decomposed(s: Seq<char>) -> Seq<char> {
    if is_ascii_chars(s) {
        s
    } else {
        decomposition(s)
    }
}

/// `UnicodeNormalization::nfd` of unicode-normalization: the canonical
/// decomposition of a text. ASCII text is its own decomposition.
#[verifier::external_body]
pub(crate) fn decompose(s: &str) -> (r: Vec<char>)
    ensures
        r@ == decomposition(s@),
        is_ascii_chars(s@) ==> r@ == s@,
{
    s.nfd().collect()
}

} // verus!
