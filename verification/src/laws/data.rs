//! Laws of documents, numbers, letters and encodings.

use crate::data::{entries_map, entry, entry_of, item_of, text_of, Data, Tree};
use crate::number::Binary64;
use crate::unicode::{
    ascii_lower, ascii_lowercase, decomposed, decomposition, is_upper, lowercase_char,
    lowercase_text, lowered, lowered_char, uppercase_char,
};
use crate::web::{decoded, parts_of, percent_decoded, plain_parts, url_parts};
use vstd::prelude::*;
use vstd::utf8::is_ascii_chars;

verus! {

/// A key has a value where an entry has that key.
pub proof fn law_keys_have_values(table: Seq<(Seq<char>, Tree)>, key: Seq<char>)
    ensures
        entry(table, key) is Some <==> exists|i: int|
            0 <= i < table.len() && (#[trigger] table[i]).0 == key,
    decreases table.len(),
{
    if table.len() > 0 {
        let n = table.len() - 1;
        let head = table.drop_last();
        law_keys_have_values(head, key);
        if table[n].0 != key && entry(head, key) is Some {
            let i = choose|i: int| 0 <= i < head.len() && (#[trigger] head[i]).0 == key;
            assert(table[i].0 == key);
        }
        if exists|i: int| 0 <= i < table.len() && (#[trigger] table[i]).0 == key {
            let i = choose|i: int| 0 <= i < table.len() && (#[trigger] table[i]).0 == key;
            if i < n {
                assert(head[i].0 == key);
            }
        }
    }
}

/// The value of a key is that of the last entry that has the key.
pub proof fn law_last_entry_holds(table: Seq<(Seq<char>, Tree)>, key: Seq<char>, i: int)
    requires
        0 <= i < table.len(),
        table[i].0 == key,
        forall|j: int| i < j < table.len() ==> (#[trigger] table[j]).0 != key,
    ensures
        entry(table, key) == Some(table[i].1),
    decreases table.len(),
{
    let n = table.len() - 1;
    if i < n {
        let head = table.drop_last();
        assert(table[n].0 != key);
        assert(head[i] == table[i]);
        assert forall|j: int| i < j < head.len() implies (#[trigger] head[j]).0 != key by {
            assert(head[j] == table[j]);
        }
        law_last_entry_holds(head, key, i);
    }
}

/// What a table holds under a key is the value of the key.
pub proof fn law_tables_hold_values(table: Seq<(Seq<char>, Tree)>, key: Seq<char>)
    ensures
        entries_map(table).contains_key(key) <==> entry(table, key) is Some,
        entry(table, key) is Some ==> entries_map(table)[key] == entry(table, key)->0,
        entry_of(Tree::Table(table), key) == entry(table, key),
{
}

/// Items are found by their positions, and only in lists; entries only in
/// tables, and texts are only texts.
pub proof fn law_parts_of_trees(tree: Tree, i: int, key: Seq<char>)
    ensures
        item_of(tree, i) is Some <==> tree is List && 0 <= i < tree->List_0.len(),
        item_of(tree, i) is Some ==> item_of(tree, i)->0 == tree->List_0[i],
        entry_of(tree, key) is Some ==> tree is Table,
        text_of(tree) is Some <==> tree is Text,
        text_of(tree) is Some ==> text_of(tree)->0 == tree->Text_0,
{
}

/// Data stands for the tree with the same texts, numbers, items and entries.
pub proof fn law_data_stands_for_its_parts(
    text: String,
    n: i128,
    items: Vec<Data>,
    entries: Vec<(String, Data)>,
)
    ensures
        Data::Text(text)@ == Tree::Text(text@),
        Data::Integer(n)@ == Tree::Integer(n as int),
        Data::Other@ == Tree::Other,
        Data::List(items)@ is List,
        Data::List(items)@->List_0.len() == items@.len(),
        forall|i: int|
            0 <= i < items@.len() ==> #[trigger] Data::List(items)@->List_0[i] == items@[i]@,
        Data::Table(entries)@ is Table,
        Data::Table(entries)@->Table_0.len() == entries@.len(),
        forall|i: int|
            0 <= i < entries@.len() ==> #[trigger] Data::Table(entries)@->Table_0[i] == (
                entries@[i].0@,
                entries@[i].1@,
            ),
{
}

/// Numbers stand in the order of their magnitudes, those with the sign bit
/// mirrored at zero; patterns beyond infinity are no numbers.
pub proof fn law_places_of_numbers(bits: u64)
    requires
        bits < 0x8000_0000_0000_0000,
    ensures
        (Binary64 { bits }).place() == bits,
        (Binary64 { bits: (bits + 0x8000_0000_0000_0000) as u64 }).place() == -bits,
        (Binary64 { bits }).spec_is_nan() <==> bits > 0x7ff0_0000_0000_0000,
        (Binary64 { bits: (bits + 0x8000_0000_0000_0000) as u64 }).spec_is_nan() <==> bits
            > 0x7ff0_0000_0000_0000,
        (Binary64 { bits }).spec_is_zero() <==> bits == 0,
        (Binary64 { bits: (bits + 0x8000_0000_0000_0000) as u64 }).spec_is_zero() <==> bits == 0,
        Binary64::spec_zero().bits == 0,
        Binary64::spec_one().bits == 0x3ff0_0000_0000_0000,
{
}

/// The greater of two numbers is one of them and below neither; what is not a
/// number does not count.
pub proof fn law_greater_number(a: Binary64, b: Binary64)
    ensures
        a.spec_max(b) == a || a.spec_max(b) == b,
        !a.spec_is_nan() && !b.spec_is_nan() ==> a.spec_max(b).place() >= a.place()
            && a.spec_max(b).place() >= b.place(),
        a.spec_is_nan() && !b.spec_is_nan() ==> a.spec_max(b) == b,
        b.spec_is_nan() ==> a.spec_max(b) == a,
{
}

// --- Letters, encodings and URLs ---

/// Letters of ASCII are lowered and told apart by their numbers; beyond ASCII it
/// is as Unicode has it.
pub proof fn law_letters(c: char, s: Seq<char>)
    ensures
        'A' <= c <= 'Z' ==> ascii_lower(c) as u32 == c as u32 + 32,
        !('A' <= c <= 'Z') ==> ascii_lower(c) == c,
        c as u32 <= 0x7f ==> lowered_char(c) == seq![ascii_lower(c)],
        c as u32 > 0x7f ==> lowered_char(c) == lowercase_char(c),
        c as u32 <= 0x7f ==> (is_upper(c) <==> 'A' <= c <= 'Z'),
        c as u32 > 0x7f ==> (is_upper(c) <==> uppercase_char(c)),
        ascii_lowercase(s).len() == s.len(),
        forall|i: int|
            0 <= i < s.len() ==> #[trigger] ascii_lowercase(s)[i] == ascii_lower(s[i]),
        is_ascii_chars(s) ==> lowered(s) == ascii_lowercase(s),
        !is_ascii_chars(s) ==> lowered(s) == lowercase_text(s),
        is_ascii_chars(s) ==> decomposed(s) == s,
        !is_ascii_chars(s) ==> decomposed(s) == decomposition(s),
{
}

/// Text without a percent sign is its own decoding, and any other is decoded; a
/// URL that is not plain, but has a colon, is taken apart as URLs are.
pub proof fn law_encodings(text: Seq<char>)
    ensures
        text.contains('%') ==> decoded(text) == percent_decoded(text),
        !text.contains('%') ==> decoded(text) == Some(text),
        plain_parts(text) is None && text.contains(':') ==> parts_of(text) == url_parts(text),
        plain_parts(text) is None && !text.contains(':') ==> parts_of(text) is None,
{
}

} // verus!
