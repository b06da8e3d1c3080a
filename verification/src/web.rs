//! URLs, percent-encoding, patterns and HTML, as their crates define them.

use crate::text::{begins, occurs};
use vstd::prelude::*;

verus! {

/// The characters of a text, where there is one.
pub open spec fn optional(text: Option<String>) -> Option<Seq<char>> {
    match text {
        Some(text) => Some(text@),
        None => None,
    }
}

// --- Chance ---

/// `rand::rng` with `rand::Rng::random_range` on `0..len`: some number in that
/// range. Nothing is said of which one it is.
#[verifier::external_body]
pub(crate) fn random_index(len: usize) -> (r: usize)
    requires
        0 < len,
    ensures
        r < len,
{
    rand::Rng::random_range(&mut rand::rng(), 0..len)
}

// --- URLs ---

/// What is read of a URL: its host, where it has one, and its path.
pub struct UrlParts {
    pub host: Option<Seq<char>>,
    pub path: Seq<char>,
}

/// A URL taken apart.
#[derive(Debug)]
pub struct ParsedUrl {
    pub host: Option<String>,
    pub path: String,
}

impl View for ParsedUrl {
    type V = UrlParts;

    open spec fn view(&self) -> UrlParts {
        UrlParts {
            host: match self.host {
                Some(host) => Some(host@),
                None => None,
            },
            path: self.path@,
        }
    }
}

/// What `url` is as an absolute URL; nothing where it is none.
pub uninterp spec fn url_parts(url: Seq<char>) -> Option<UrlParts>;

/// Whether `host` is made of lowercase ASCII letters and of single dots between
/// them.
pub open spec fn is_plain_host(host: Seq<char>) -> bool {
    &&& 0 < host.len() <= 253
    &&& forall|i: int|
        0 <= i < host.len() ==> 'a' <= #[trigger] host[i] <= 'z' || (host[i] == '.' && 0 < i
            < host.len() - 1 && host[i + 1] != '.')
}

/// Whether `path` is made of lowercase ASCII letters and slashes.
pub open spec fn is_plain_path(path: Seq<char>) -> bool {
    &&& path.len() <= 1024
    &&& forall|i: int|
        0 <= i < path.len() ==> 'a' <= #[trigger] path[i] <= 'z' || path[i] == '/'
}

/// What `url` is, where it is made of `https://`, a plain host and a plain path
/// that begins with a slash.
pub open spec fn plain_parts(url: Seq<char>) -> Option<UrlParts> {
    if begins(url, "https://"@) {
        let rest = url.skip(8);
        match rest.index_of_first('/') {
            Some(at) => if is_plain_host(rest.take(at)) && is_plain_path(rest.skip(at)) {
                Some(UrlParts { host: Some(rest.take(at)), path: rest.skip(at) })
            } else {
                None
            },
            None => None,
        }
    } else {
        None
    }
}

/// What `url` is as an absolute URL, which for plain hosts and paths can be read
/// off it; nothing where it is none, as without a scheme.
pub open spec fn parts_of(url: Seq<char>) -> Option<UrlParts> {
    if plain_parts(url) is Some {
        plain_parts(url)
    } else if !url.contains(':') {
        None
    } else {
        url_parts(url)
    }
}

/// The parts of a URL, where there is one.
pub open spec fn parsed_parts(parsed: Option<ParsedUrl>) -> Option<UrlParts> {
    match parsed {
        Some(parsed) => Some(parsed@),
        None => None,
    }
}

/// `url::Url::parse`, with `host_str` and `path` of its result: the serialized
/// host and path of an absolute URL, nothing where parsing fails. Plain hosts
/// and paths are kept as they are, and a text without a colon is no absolute
/// URL.
#[verifier::external_body]
pub(crate) fn parse_url(url: &str) -> (r: Option<ParsedUrl>)
    ensures
        parsed_parts(r) == url_parts(url@),
        plain_parts(url@) is Some ==> parsed_parts(r) == plain_parts(url@),
        !url@.contains(':') ==> r is None,
{
    match url::Url::parse(url) {
        Ok(parsed) => Some(
            ParsedUrl {
                host: parsed.host_str().map(|host| host.to_string()),
                path: parsed.path().to_string(),
            },
        ),
        Err(_) => None,
    }
}

/// The characters of query parameters.
pub open spec fn pairs(params: Seq<(&str, &str)>) -> Seq<(Seq<char>, Seq<char>)> {
    params.map_values(|p: (&str, &str)| (p.0@, p.1@))
}

/// The serialized URL `base` with `params` as its query.
pub uninterp spec fn url_with_query(
    base: Seq<char>,
    params: Seq<(Seq<char>, Seq<char>)>,
) -> Seq<char>;

/// `url::Url::parse_with_params`, serialized by `as_str`: `base` with the
/// parameters appended as its query in form encoding. Parsing does not fail on
/// a plain host and path, and the result begins with them and a question mark.
#[verifier::external_body]
pub(crate) fn build_url(base: &str, params: &Vec<(&str, &str)>) -> (r: String)
    requires
        plain_parts(base@) is Some,
    ensures
        r@ == url_with_query(base@, pairs(params@)),
        begins(r@, base@ + "?"@),
{
    url::Url::parse_with_params(base, params).unwrap().as_str().to_string()
}

/// What percent-encoded `text` stands for; nothing where the decoded bytes are
/// not UTF-8.
pub uninterp spec fn percent_decoded(text: Seq<char>) -> Option<Seq<char>>;

/// What percent-encoded `text` stands for; text without `%` stands for itself.
pub open spec fn decoded(text: Seq<char>) -> Option<Seq<char>> {
    if text.contains('%') {
        percent_decoded(text)
    } else {
        Some(text)
    }
}

/// `urlencoding::decode`: each `%` with two hexadecimal digits stands for a
/// byte, and the bytes are read as UTF-8, which may fail. Text without `%`
/// stands for itself.
#[verifier::external_body]
pub(crate) fn percent_decode(text: &str) -> (r: Option<String>)
    ensures
        optional(r) == percent_decoded(text@),
        !text@.contains('%') ==> r is Some && r->0@ == text@,
{
    match urlencoding::decode(text) {
        Ok(decoded) => Some(decoded.into_owned()),
        Err(_) => None,
    }
}

// --- Patterns ---

/// Whether `word` is made of at least one and at most 32 lowercase ASCII letters.
pub open spec fn is_plain_word(word: Seq<char>) -> bool {
    &&& 0 < word.len() <= 32
    &&& forall|i: int| 0 <= i < word.len() ==> 'a' <= #[trigger] word[i] <= 'z'
}

/// Whether one of `words` occurs somewhere in `text`.
pub open spec fn any_occurs(words: Seq<&str>, text: Seq<char>) -> bool {
    exists|i: int| 0 <= i < words.len() && occurs(text, (#[trigger] words[i])@)
}

/// Whether `words` are plain words, of which there is at least one.
pub open spec fn are_plain_words(words: Seq<&str>) -> bool {
    &&& 0 < words.len() <= 64
    &&& forall|i: int| 0 <= i < words.len() ==> is_plain_word((#[trigger] words[i])@)
}

/// The words with bars between them.
pub open spec fn joined(words: Seq<&str>) -> Seq<char>
    decreases words.len(),
{
    if words.len() == 0 {
        Seq::empty()
    } else if words.len() == 1 {
        words[0]@
    } else {
        joined(words.drop_last()) + "|"@ + words.last()@
    }
}

/// The regular expression for any of the words.
pub open spec fn alternation(words: Seq<&str>) -> Seq<char> {
    "("@ + joined(words) + ")"@
}

/// `regex::Regex`: a compiled regular expression.
#[verifier::external_type_specification]
#[verifier::external_body]
pub struct ExRegex(regex::Regex);

/// `regex::Error`: why a text is no regular expression.
#[verifier::external_type_specification]
#[verifier::external_body]
pub struct ExRegexError(regex::Error);

/// The text from which `regex::Regex::new` compiles a regular expression that
/// matches as this one does.
pub uninterp spec fn pattern_of(regex: regex::Regex) -> Seq<char>;

/// Whether `pattern` is a regular expression.
pub uninterp spec fn is_pattern(pattern: Seq<char>) -> bool;

/// `regex::Regex::new`: the regular expression `re` compiled, an error where it
/// is refused. An alternation of plain words is not.
pub assume_specification[ regex::Regex::new ](re: &str) -> (r: Result<regex::Regex, regex::Error>)
    ensures
        r is Ok <==> is_pattern(re@),
        r is Ok ==> pattern_of(r->Ok_0) == re@,
        forall|words: Seq<&str>| are_plain_words(words) && re@ == #[trigger] alternation(words)
            ==> r is Ok,
;

/// Whether there is a match of `pattern` in `text`.
pub uninterp spec fn pattern_matches(pattern: Seq<char>, text: Seq<char>) -> bool;

/// `regex::Regex::is_match`: whether there is a match anywhere in `haystack`.
/// An alternation of plain words matches where one of them occurs.
pub assume_specification[ regex::Regex::is_match ](regex: &regex::Regex, haystack: &str) -> (r:
    bool)
    ensures
        r == pattern_matches(pattern_of(*regex), haystack@),
        forall|words: Seq<&str>|
            are_plain_words(words) && pattern_of(*regex) == #[trigger] alternation(words) ==> r
                == any_occurs(words, haystack@),
;

/// The first group of the leftmost match of `pattern` in `text`, where there is
/// a match in which the group takes part.
pub uninterp spec fn first_group(pattern: Seq<char>, text: Seq<char>) -> Option<Seq<char>>;

/// `regex::Regex::captures`, with `regex::Captures::get` for group 1 and
/// `regex::Match::as_str`: the text of the group in the leftmost match.
#[verifier::external_body]
pub(crate) fn capture(regex: &regex::Regex, text: &str) -> (r: Option<String>)
    ensures
        optional(r) == first_group(pattern_of(*regex), text@),
{
    regex.captures(text).and_then(|c| c.get(1)).map(|group| group.as_str().to_string())
}

// --- HTML ---

/// Whether `text` is made of ASCII letters, digits and hyphens.
pub open spec fn is_plain_value(text: Seq<char>) -> bool {
    &&& text.len() <= 64
    &&& forall|i: int|
        0 <= i < text.len() ==> 'a' <= #[trigger] text[i] <= 'z' || 'A' <= text[i] <= 'Z' || '0'
            <= text[i] <= '9' || text[i] == '-'
}

/// Whether `name` is made of ASCII letters, digits and hyphens, and begins with
/// a letter.
pub open spec fn is_name(name: Seq<char>) -> bool {
    &&& is_plain_value(name)
    &&& name.len() > 0
    &&& 'a' <= name[0] <= 'z' || 'A' <= name[0] <= 'Z'
}

/// What an element has to have besides its name.
pub enum Condition {
    Nothing,
    Class(Seq<char>),
    Attribute(Seq<char>),
    /// An attribute with this value.
    Valued(Seq<char>, Seq<char>),
}

impl Condition {
    /// Whether the parts of the condition are plain.
    pub open spec fn is_plain(self) -> bool {
        match self {
            Condition::Nothing => true,
            Condition::Class(class) => is_name(class),
            Condition::Attribute(attribute) => is_name(attribute),
            Condition::Valued(attribute, value) => is_name(attribute) && is_plain_value(value),
        }
    }

    /// The condition as CSS writes it.
    pub open spec fn css(self) -> Seq<char> {
        match self {
            Condition::Nothing => Seq::empty(),
            Condition::Class(class) => "."@ + class,
            Condition::Attribute(attribute) => "["@ + attribute + "]"@,
            Condition::Valued(attribute, value) => "["@ + attribute + "='"@ + value + "']"@,
        }
    }
}

/// Whether `selector` is the CSS for elements with a name and a condition.
pub open spec fn is_plain_selector(selector: Seq<char>) -> bool {
    exists|element: Seq<char>, condition: Condition|
        #![trigger is_name(element), condition.css()]
        is_name(element) && condition.is_plain() && selector == element + condition.css()
}

/// For each element of the HTML document `body` that `selector` selects, the
/// HTML inside it.
pub uninterp spec fn html_inside(body: Seq<char>, selector: Seq<char>) -> Seq<Seq<char>>;

/// The characters of texts.
pub open spec fn texts(strings: Seq<String>) -> Seq<Seq<char>> {
    strings.map_values(|s: String| s@)
}

/// `scraper::Html::parse_document`, with `select` on the document and
/// `inner_html` of each element that it gives, in its order. Parsing never
/// fails, and neither does `scraper::Selector::parse` on a plain selector.
#[verifier::external_body]
pub(crate) fn select_inside(body: &str, selector: &str) -> (r: Vec<String>)
    requires
        is_plain_selector(selector@),
    ensures
        texts(r@) == html_inside(body@, selector@),
{
    let selector = scraper::Selector::parse(selector).unwrap();
    scraper::Html::parse_document(body).select(&selector).map(|e| e.inner_html()).collect()
}

/// What is read of an element: the texts and the attributes of the elements
/// inside it that selectors select, in their order. An attribute may be missing.
pub struct RowParts {
    pub titles: Seq<Seq<char>>,
    pub links: Seq<Option<Seq<char>>>,
    pub descriptions: Seq<Seq<char>>,
}

/// What is read of an element that stands for a search result.
#[derive(Clone, Debug, PartialEq, Eq)]
pub struct Row {
    pub titles: Vec<String>,
    pub links: Vec<Option<String>>,
    pub descriptions: Vec<String>,
}

impl View for Row {
    type V = RowParts;

    open spec fn view(&self) -> RowParts {
        RowParts {
            titles: texts(self.titles@),
            links: self.links@.map_values(|link: Option<String>| optional(link)),
            descriptions: texts(self.descriptions@),
        }
    }
}

/// For each element of the HTML document `body` that `row` selects: the texts of
/// the elements inside it that `title` selects, the attributes of those that
/// `link` selects, and the texts of those that `description` selects.
pub uninterp spec fn html_rows(
    body: Seq<char>,
    row: Seq<char>,
    title: Seq<char>,
    link: Seq<char>,
    attribute: Seq<char>,
    description: Seq<char>,
) -> Seq<RowParts>;

/// What is read of several elements.
pub open spec fn row_parts(rows: Seq<Row>) -> Seq<RowParts> {
    rows.map_values(|row: Row| row@)
}

/// `scraper::Html::parse_document`, with `select` on the document, and with
/// `select` on each element that it gives and `text` or `attr` of each element
/// that this gives, all in their order. Parsing never fails, and neither does
/// `scraper::Selector::parse` on a plain selector.
#[verifier::external_body]
pub(crate) fn select_rows(
    body: &str,
    row: &str,
    title: &str,
    link: &str,
    attribute: &str,
    description: &str,
) -> (r: Vec<Row>)
    requires
        is_plain_selector(row@),
        is_plain_selector(title@),
        is_plain_selector(link@),
        is_plain_selector(description@),
    ensures
        row_parts(r@) == html_rows(body@, row@, title@, link@, attribute@, description@),
{
    let row = scraper::Selector::parse(row).unwrap();
    let title = scraper::Selector::parse(title).unwrap();
    let link = scraper::Selector::parse(link).unwrap();
    let description = scraper::Selector::parse(description).unwrap();
    scraper::Html::parse_document(body).select(&row).map(
        |e| Row {
            titles: e.select(&title).map(|n| n.text().collect()).collect(),
            links: e.select(&link).map(|n| n.attr(attribute).map(str::to_string)).collect(),
            descriptions: e.select(&description).map(|n| n.text().collect()).collect(),
        },
    ).collect()
}

} // verus!
