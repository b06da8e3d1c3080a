//! Documents that are read from text: TOML and JSON as one kind of tree.

use crate::text::same_text;
use vstd::prelude::*;

verus! {

/// What a parsed document holds, as a mathematical value. A table keeps the
/// order in which its parser walks it.
pub enum Tree {
    Text(Seq<char>),
    Integer(int),
    List(Seq<Tree>),
    Table(Seq<(Seq<char>, Tree)>),
    /// A value of a kind that is never read.
    Other,
}

/// What a parsed document holds, as far as this library reads it.
#[derive(Debug)]
pub enum Data {
    Text(String),
    Integer(i128),
    List(Vec<Data>),
    Table(Vec<(String, Data)>),
    /// A value of a kind that is never read.
    Other,
}

impl View for Data {
    type V = Tree;

    open spec fn view(&self) -> Tree {
        self.tree()
    }
}

impl Data {
    /// The mathematical value of the document.
    pub open spec fn tree(self) -> Tree
        decreases self,
    {
        match self {
            Data::Text(s) => Tree::Text(s@),
            Data::Integer(n) => Tree::Integer(n as int),
            Data::List(items) => Tree::List(
                Seq::new(
                    items@.len(),
                    |i: int|
                        if 0 <= i < items@.len() {
                            items@[i].tree()
                        } else {
                            Tree::Other
                        },
                ),
            ),
            Data::Table(entries) => Tree::Table(
                Seq::new(
                    entries@.len(),
                    |i: int|
                        if 0 <= i < entries@.len() {
                            (entries@[i].0@, entries@[i].1.tree())
                        } else {
                            (Seq::empty(), Tree::Other)
                        },
                ),
            ),
            Data::Other => Tree::Other,
        }
    }
}

/// The value that the last entry for `key` gives it.
pub open spec fn entry(table: Seq<(Seq<char>, Tree)>, key: Seq<char>) -> Option<Tree>
    decreases table.len(),
{
    if table.len() == 0 {
        None
    } else if table.last().0 == key {
        Some(table.last().1)
    } else {
        entry(table.drop_last(), key)
    }
}

/// The item of a list at position `i`, nothing of any other value.
pub open spec fn item_of(tree: Tree, i: int) -> Option<Tree> {
    match tree {
        Tree::List(items) => if 0 <= i < items.len() {
            Some(items[i])
        } else {
            None
        },
        _ => None,
    }
}

/// What a table holds under `key`, nothing of any other value.
pub open spec fn entry_of(tree: Tree, key: Seq<char>) -> Option<Tree> {
    match tree {
        Tree::Table(entries) => entry(entries, key),
        _ => None,
    }
}

/// The characters of a text, nothing of any other value.
pub open spec fn text_of(tree: Tree) -> Option<Seq<char>> {
    match tree {
        Tree::Text(text) => Some(text),
        _ => None,
    }
}

/// What the table `data` holds under `key`.
pub fn lookup<'a>(data: &'a Data, key: &str) -> (r: Option<&'a Data>)
    ensures
        match r {
            Some(value) => entry_of(data@, key@) == Some(value@),
            None => entry_of(data@, key@) is None,
        },
{
    if let Data::Table(entries) = data {
        let ghost trees = data@->Table_0;
        let mut found: Option<&'a Data> = None;
        for i in 0..entries.len()
            invariant
                *data == Data::Table(*entries),
                trees == data@->Table_0,
                match found {
                    Some(value) => entry(trees.take(i as int), key@) == Some(value@),
                    None => entry(trees.take(i as int), key@) is None,
                },
        {
            assert(trees.take(i + 1).drop_last() =~= trees.take(i as int));
            assert(trees.take(i + 1).last() == (entries@[i as int].0@, entries@[i as int].1@));
            if same_text(entries[i].0.as_str(), key) {
                found = Some(&entries[i].1);
            }
        }
        assert(trees.take(entries@.len() as int) =~= trees);
        found
    } else {
        None
    }
}

/// The item of the list `data` at position `i`.
pub fn item<'a>(data: &'a Data, i: usize) -> (r: Option<&'a Data>)
    ensures
        match r {
            Some(value) => item_of(data@, i as int) == Some(value@),
            None => item_of(data@, i as int) is None,
        },
{
    match data {
        Data::List(items) => if i < items.len() {
            Some(&items[i])
        } else {
            None
        },
        _ => None,
    }
}

/// A copy of the text `data`.
pub fn text_in(data: &Data) -> (r: Option<String>)
    ensures
        match r {
            Some(text) => text_of(data@) == Some(text@),
            None => text_of(data@) is None,
        },
{
    match data {
        Data::Text(text) => Some(text.clone()),
        _ => None,
    }
}

// --- JSON ---

/// `serde_json::Value`: a parsed JSON value.
#[verifier::external_type_specification]
#[verifier::external_body]
pub struct ExJsonValue(serde_json::Value);

/// What a `serde_json::Value` holds. A number that is not a natural number
/// below 2^64, a boolean and null count as `Tree::Other`.
pub uninterp spec fn json_tree(value: serde_json::Value) -> Tree;

/// `serde_json::Value::as_array`: the items of an array, nothing of any other
/// value.
pub assume_specification[ serde_json::Value::as_array ](value: &serde_json::Value) -> (r: Option<
    &Vec<serde_json::Value>,
>)
    ensures
        match r {
            Some(items) => json_tree(*value) == Tree::List(
                items@.map_values(|item: serde_json::Value| json_tree(item)),
            ),
            None => !(json_tree(*value) is List),
        },
;

/// `serde_json::Value::as_str`: the characters of a string, nothing of any
/// other value.
pub assume_specification[ serde_json::Value::as_str ](value: &serde_json::Value) -> (r: Option<
    &str,
>)
    ensures
        match r {
            Some(text) => json_tree(*value) == Tree::Text(text@),
            None => !(json_tree(*value) is Text),
        },
;

/// `serde_json::Value::as_u64`: a natural number below 2^64, nothing of any
/// other value.
pub assume_specification[ serde_json::Value::as_u64 ](value: &serde_json::Value) -> (r: Option<
    u64,
>)
    ensures
        match r {
            Some(n) => json_tree(*value) == Tree::Integer(n as int),
            None => !(json_tree(*value) is Integer),
        },
;

/// `serde_json::Value::as_object` with `serde_json::Map::iter`: the entries of
/// an object in the order in which the map is walked, nothing of any other
/// value.
#[verifier::external_body]
fn json_entries(value: &serde_json::Value) -> (r: Option<Vec<(&String, &serde_json::Value)>>)
    ensures
        match r {
            Some(entries) => json_tree(*value) == Tree::Table(
                entries@.map_values(
                    |e: (&String, &serde_json::Value)| (e.0@, json_tree(*e.1)),
                ),
            ),
            None => !(json_tree(*value) is Table),
        },
{
    value.as_object().map(|object| object.iter().collect())
}

/// What the JSON document `text` holds; nothing where it is not JSON.
pub uninterp spec fn json_document(text: Seq<char>) -> Option<Tree>;

/// `serde_json::from_str` into a `serde_json::Value`: the value that `text`
/// writes, nothing where `text` is not one JSON value.
#[verifier::external_body]
fn json_value(text: &str) -> (r: Option<serde_json::Value>)
    ensures
        match r {
            Some(value) => json_document(text@) == Some(json_tree(value)),
            None => json_document(text@) is None,
        },
{
    serde_json::from_str(text).ok()
}

/// Takes a JSON value apart.
fn json_data(value: &serde_json::Value) -> (r: Data)
    ensures
        r@ == json_tree(*value),
    decreases json_tree(*value),
{
    if let Some(text) = value.as_str() {
        return Data::Text(text.to_owned());
    }
    if let Some(n) = value.as_u64() {
        return Data::Integer(n as i128);
    }
    if let Some(items) = value.as_array() {
        let mut list: Vec<Data> = Vec::new();
        let ghost trees = items@.map_values(|item: serde_json::Value| json_tree(item));
        for i in 0..items.len()
            invariant
                trees == items@.map_values(|item: serde_json::Value| json_tree(item)),
                json_tree(*value) == Tree::List(trees),
                list@.len() == i,
                forall|j: int| 0 <= j < i ==> (#[trigger] list@[j])@ == trees[j],
        {
            assert(decreases_to!(json_tree(*value) => json_tree(*value)->List_0));
            assert(trees[i as int] == json_tree(items@[i as int]));
            assert(decreases_to!(trees => trees[i as int]));
            list.push(json_data(&items[i]));
        }
        let data = Data::List(list);
        assert(data@->List_0 =~= trees);
        return data;
    }
    if let Some(entries) = json_entries(value) {
        let mut table: Vec<(String, Data)> = Vec::new();
        let ghost trees = entries@.map_values(
            |e: (&String, &serde_json::Value)| (e.0@, json_tree(*e.1)),
        );
        for i in 0..entries.len()
            invariant
                trees == entries@.map_values(
                    |e: (&String, &serde_json::Value)| (e.0@, json_tree(*e.1)),
                ),
                json_tree(*value) == Tree::Table(trees),
                table@.len() == i,
                forall|j: int|
                    0 <= j < i ==> (#[trigger] table@[j]).0@ == trees[j].0 && table@[j].1@
                        == trees[j].1,
        {
            assert(decreases_to!(json_tree(*value) => json_tree(*value)->Table_0));
            assert(trees[i as int] == (entries@[i as int].0@, json_tree(*entries@[i as int].1)));
            assert(decreases_to!(trees => trees[i as int]));
            assert(decreases_to!(trees[i as int] => trees[i as int].1));
            table.push((entries[i].0.clone(), json_data(entries[i].1)));
        }
        let data = Data::Table(table);
        assert(data@->Table_0 =~= trees);
        return data;
    }
    Data::Other
}

/// Reads a JSON document; nothing comes of a text that is not JSON.
pub fn read_json(text: &str) -> (r: Option<Data>)
    ensures
        match r {
            Some(data) => json_document(text@) == Some(data@),
            None => json_document(text@) is None,
        },
{
    match json_value(text) {
        Some(value) => Some(json_data(&value)),
        None => None,
    }
}

// --- TOML ---

/// `toml::Value`: a parsed TOML value.
#[verifier::external_type_specification]
#[verifier::external_body]
pub struct ExTomlValue(toml::Value);

/// What a `toml::Value` holds. A floating-point number, a boolean and a date
/// count as `Tree::Other`.
pub uninterp spec fn toml_tree(value: toml::Value) -> Tree;

/// `toml::Value::as_array`: the items of an array, nothing of any other value.
pub assume_specification[ toml::Value::as_array ](value: &toml::Value) -> (r: Option<
    &Vec<toml::Value>,
>)
    ensures
        match r {
            Some(items) => toml_tree(*value) == Tree::List(
                items@.map_values(|item: toml::Value| toml_tree(item)),
            ),
            None => !(toml_tree(*value) is List),
        },
;

/// `toml::Value::as_str`: the characters of a string, nothing of any other
/// value.
pub assume_specification[ toml::Value::as_str ](value: &toml::Value) -> (r: Option<&str>)
    ensures
        match r {
            Some(text) => toml_tree(*value) == Tree::Text(text@),
            None => !(toml_tree(*value) is Text),
        },
;

/// `toml::Value::as_integer`: an integer, nothing of any other value.
pub assume_specification[ toml::Value::as_integer ](value: &toml::Value) -> (r: Option<i64>)
    ensures
        match r {
            Some(n) => toml_tree(*value) == Tree::Integer(n as int),
            None => !(toml_tree(*value) is Integer),
        },
;

/// `toml::Value::as_table` with `toml::Table::iter`: the entries of a table in
/// the order in which the map is walked, nothing of any other value.
#[verifier::external_body]
fn toml_entries(value: &toml::Value) -> (r: Option<Vec<(&String, &toml::Value)>>)
    ensures
        match r {
            Some(entries) => toml_tree(*value) == Tree::Table(
                entries@.map_values(|e: (&String, &toml::Value)| (e.0@, toml_tree(*e.1))),
            ),
            None => !(toml_tree(*value) is Table),
        },
{
    value.as_table().map(|table| table.iter().collect())
}

/// What the TOML document `text` holds, which is a table; nothing where it is
/// not TOML.
pub uninterp spec fn toml_document(text: Seq<char>) -> Option<Tree>;

/// `str::parse` into a `toml::Table`, as a `toml::Value`: the table that `text`
/// writes, nothing where `text` is not a TOML document.
#[verifier::external_body]
fn toml_value(text: &str) -> (r: Option<toml::Value>)
    ensures
        match r {
            Some(value) => toml_document(text@) == Some(toml_tree(value)) && toml_tree(
                value,
            ) is Table,
            None => toml_document(text@) is None,
        },
{
    text.parse::<toml::Table>().ok().map(toml::Value::Table)
}

/// Takes a TOML value apart.
fn toml_data(value: &toml::Value) -> (r: Data)
    ensures
        r@ == toml_tree(*value),
    decreases toml_tree(*value),
{
    if let Some(text) = value.as_str() {
        return Data::Text(text.to_owned());
    }
    if let Some(n) = value.as_integer() {
        return Data::Integer(n as i128);
    }
    if let Some(items) = value.as_array() {
        let mut list: Vec<Data> = Vec::new();
        let ghost trees = items@.map_values(|item: toml::Value| toml_tree(item));
        for i in 0..items.len()
            invariant
                trees == items@.map_values(|item: toml::Value| toml_tree(item)),
                toml_tree(*value) == Tree::List(trees),
                list@.len() == i,
                forall|j: int| 0 <= j < i ==> (#[trigger] list@[j])@ == trees[j],
        {
            assert(decreases_to!(toml_tree(*value) => toml_tree(*value)->List_0));
            assert(trees[i as int] == toml_tree(items@[i as int]));
            assert(decreases_to!(trees => trees[i as int]));
            list.push(toml_data(&items[i]));
        }
        let data = Data::List(list);
        assert(data@->List_0 =~= trees);
        return data;
    }
    if let Some(entries) = toml_entries(value) {
        let mut table: Vec<(String, Data)> = Vec::new();
        let ghost trees = entries@.map_values(
            |e: (&String, &toml::Value)| (e.0@, toml_tree(*e.1)),
        );
        for i in 0..entries.len()
            invariant
                trees == entries@.map_values(
                    |e: (&String, &toml::Value)| (e.0@, toml_tree(*e.1)),
                ),
                toml_tree(*value) == Tree::Table(trees),
                table@.len() == i,
                forall|j: int|
                    0 <= j < i ==> (#[trigger] table@[j]).0@ == trees[j].0 && table@[j].1@
                        == trees[j].1,
        {
            assert(decreases_to!(toml_tree(*value) => toml_tree(*value)->Table_0));
            assert(trees[i as int] == (entries@[i as int].0@, toml_tree(*entries@[i as int].1)));
            assert(decreases_to!(trees => trees[i as int]));
            assert(decreases_to!(trees[i as int] => trees[i as int].1));
            table.push((entries[i].0.clone(), toml_data(entries[i].1)));
        }
        let data = Data::Table(table);
        assert(data@->Table_0 =~= trees);
        return data;
    }
    Data::Other
}

/// Reads a TOML document; nothing comes of a text that is not TOML.
pub fn read_toml(text: &str) -> (r: Option<Data>)
    ensures
        match r {
            Some(data) => toml_document(text@) == Some(data@),
            None => toml_document(text@) is None,
        },
{
    match toml_value(text) {
        Some(value) => Some(toml_data(&value)),
        None => None,
    }
}

// --- TOML tables ---

/// `toml::map::Map`: the type of `toml::Table`.
#[verifier::external_type_specification]
#[verifier::external_body]
#[verifier::reject_recursive_types(K)]
#[verifier::reject_recursive_types(V)]
pub struct ExTomlMap<K, V>(toml::map::Map<K, V>);

/// What a `toml::Table` holds.
pub uninterp spec fn table_contents(table: toml::Table) -> Map<Seq<char>, toml::Value>;

/// `toml::Table::new`: an empty table.
#[verifier::external_body]
pub(crate) fn new_table() -> (r: toml::Table)
    ensures
        table_contents(r).is_empty(),
{
    toml::Table::new()
}

/// `toml::Table::insert`: puts a value under a key, in place of any other.
#[verifier::external_body]
pub(crate) fn insert_into(table: &mut toml::Table, key: String, value: toml::Value)
    ensures
        table_contents(*final(table)) == table_contents(*old(table)).insert(key@, value),
{
    table.insert(key, value);
}

/// `Extend::extend` of `toml::Table`: takes over all entries of another table,
/// in place of those under the same keys.
#[verifier::external_body]
pub(crate) fn extend_with(table: &mut toml::Table, other: toml::Table)
    ensures
        table_contents(*final(table)) == table_contents(*old(table)).union_prefer_right(
            table_contents(other),
        ),
{
    table.extend(other);
}

/// `Clone::clone` of `toml::Table`: a table that holds the same.
#[verifier::external_body]
pub(crate) fn clone_table(table: &toml::Table) -> (r: toml::Table)
    ensures
        table_contents(r) == table_contents(*table),
{
    table.clone()
}

/// `toml::Value::String`: a value that holds a text.
#[verifier::external_body]
pub(crate) fn text_value(text: String) -> (r: toml::Value)
    ensures
        toml_tree(r) == Tree::Text(text@),
{
    toml::Value::String(text)
}

/// `toml::Value::Integer`: a value that holds an integer.
#[verifier::external_body]
pub(crate) fn integer_value(n: i64) -> (r: toml::Value)
    ensures
        toml_tree(r) == Tree::Integer(n as int),
{
    toml::Value::Integer(n)
}

/// What a table holds, as trees by their keys.
pub open spec fn entries_map(table: Seq<(Seq<char>, Tree)>) -> Map<Seq<char>, Tree> {
    Map::new(|key: Seq<char>| entry(table, key) is Some, |key: Seq<char>| entry(table, key)->0)
}

/// `toml::Value::Table`: a value that holds a table.
#[verifier::external_body]
pub(crate) fn table_value(table: toml::Table) -> (r: toml::Value)
    ensures
        toml_tree(r) is Table,
        entries_map(toml_tree(r)->Table_0) == table_contents(table).map_values(
            |value: toml::Value| toml_tree(value),
        ),
{
    toml::Value::Table(table)
}

} // verus!
