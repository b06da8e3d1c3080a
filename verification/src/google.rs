//! Google: what is sent to it, and what is read from its answers.

use crate::data::{
    entry_of, item, item_of, json_document, lookup, read_json, text_in, text_of, Data, Tree,
};
use crate::engine::{
    EngineImageResult, EngineImagesResponse, EngineResponse, EngineSearchResult, SearchQuery,
};
use crate::text::{
    append, before, begins, chars_of, contains, find, lemma_before, occurs, occurs_at, starts_with,
    string_of,
};
use crate::web::{
    build_url, capture, decoded, first_group, html_inside, html_rows, is_name, is_pattern,
    is_plain_host, is_plain_path, is_plain_selector, optional, pairs, pattern_of, percent_decode,
    plain_parts, random_index, row_parts, select_inside, select_rows, texts, url_with_query,
    Condition, Row, RowParts,
};
use vstd::prelude::*;

verus! {

// --- GSA user agents ---

pub const GSA_USER_AGENT_A: &'static str =
    "Mozilla/5.0 (iPhone14,6; CPU iPhone OS 17_7_2 like Mac OS X) AppleWebKit/605.1.15 (KHTML, like Gecko) GSA/344.0.695551749 Mobile/15E148 Safari/604.1";

pub const GSA_USER_AGENT_B: &'static str =
    "Mozilla/5.0 (iPhone16,2; CPU iPhone OS 18_1_1 like Mac OS X) AppleWebKit/605.1.15 (KHTML, like Gecko) GSA/345.1.700380567 Mobile/15E148 Safari/604.1";

pub const GSA_USER_AGENT_C: &'static str =
    "Mozilla/5.0 (iPhone15,3; CPU iPhone OS 17_6_1 like Mac OS X) AppleWebKit/605.1.15 (KHTML, like Gecko) GSA/343.0.694165092 Mobile/15E148 Safari/604.1";

pub const GSA_USER_AGENT_D: &'static str =
    "Mozilla/5.0 (iPhone16,1; CPU iPhone OS 18_0_1 like Mac OS X) AppleWebKit/605.1.15 (KHTML, like Gecko) GSA/344.0.695551749 Mobile/15E148 Safari/604.1";

pub const GSA_USER_AGENT_E: &'static str =
    "Mozilla/5.0 (iPhone14,7; CPU iPhone OS 17_5 like Mac OS X) AppleWebKit/605.1.15 (KHTML, like Gecko) GSA/342.0.693056097 Mobile/15E148 Safari/604.1";

pub const GSA_USER_AGENT_F: &'static str =
    "Mozilla/5.0 (iPhone15,4; CPU iPhone OS 18_1 like Mac OS X) AppleWebKit/605.1.15 (KHTML, like Gecko) GSA/345.1.700380567 Mobile/15E148 Safari/604.1";

pub const GSA_USER_AGENT_G: &'static str =
    "Mozilla/5.0 (iPhone16,2; CPU iPhone OS 17_7 like Mac OS X) AppleWebKit/605.1.15 (KHTML, like Gecko) GSA/343.0.694165092 Mobile/15E148 Safari/604.1";

pub const GSA_USER_AGENT_H: &'static str =
    "Mozilla/5.0 (iPhone15,2; CPU iPhone OS 18_0 like Mac OS X) AppleWebKit/605.1.15 (KHTML, like Gecko) GSA/344.0.695551749 Mobile/15E148 Safari/604.1";

/// The number of User-Agent strings.
pub const GSA_USER_AGENTS_LEN: usize = 8;

/// User-Agent strings for the Google Search App on iOS.
///
/// Covers iOS 17-18 and recent GSA versions. One is picked at random per
/// request to reduce fingerprinting surface.
pub open spec fn gsa_user_agents() -> Seq<Seq<char>> {
    seq![
        GSA_USER_AGENT_A@,
        GSA_USER_AGENT_B@,
        GSA_USER_AGENT_C@,
        GSA_USER_AGENT_D@,
        GSA_USER_AGENT_E@,
        GSA_USER_AGENT_F@,
        GSA_USER_AGENT_G@,
        GSA_USER_AGENT_H@,
    ]
}

/// The User-Agent string at position `i`.
pub fn user_agent(i: usize) -> (r: &'static str)
    requires
        i < GSA_USER_AGENTS_LEN,
    ensures
        r@ == gsa_user_agents()[i as int],
{
    match i {
        0 => GSA_USER_AGENT_A,
        1 => GSA_USER_AGENT_B,
        2 => GSA_USER_AGENT_C,
        3 => GSA_USER_AGENT_D,
        4 => GSA_USER_AGENT_E,
        5 => GSA_USER_AGENT_F,
        6 => GSA_USER_AGENT_G,
        _ => GSA_USER_AGENT_H,
    }
}

// --- Arc id ---

/// Character set for arc_id random generation.
pub const ARC_CHARSET: &'static str =
    "abcdefghijklmnopqrstuvwxyzABCDEFGHIJKLMNOPQRSTUVWXYZ0123456789_-";

/// The number of characters in the set.
pub const ARC_CHARSET_LEN: usize = 64;

/// Length of the random portion of the arc_id.
pub const ARC_ID_LEN: usize = 23;

/// How long an arc_id stays valid before rotation, in nanoseconds.
pub const ARC_ID_TTL: u128 = 3_600_000_000_000;

/// An arc_id and its creation time, in nanoseconds of a clock that never goes
/// back.
#[derive(Clone, Debug, PartialEq, Eq)]
pub struct ArcId {
    pub id: String,
    pub created: u128,
}

/// The characters at the given positions of the character set.
pub open spec fn picked(picks: Seq<usize>) -> Seq<char> {
    picks.map_values(|pick: usize| ARC_CHARSET@[pick as int])
}

/// Whether `id` can be an arc_id.
pub open spec fn is_arc_id(id: Seq<char>) -> bool {
    &&& id.len() == ARC_ID_LEN
    &&& forall|i: int| 0 <= i < id.len() ==> ARC_CHARSET@.contains(#[trigger] id[i])
}

/// Whether an arc_id of that age has to be replaced.
pub open spec fn is_stale(created: u128, now: u128) -> bool {
    now - created > ARC_ID_TTL
}

/// The `async` parameter value for a request with an arc_id.
pub open spec fn async_value(id: Seq<char>) -> Seq<char> {
    "arc_id:srp_"@ + id + "_100,use_ac:true,_fmt:prog"@
}

/// The arc_id with the characters at the given positions of the character set.
pub fn arc_id(picks: &Vec<usize>) -> (r: String)
    requires
        picks@.len() == ARC_ID_LEN,
        forall|i: int| 0 <= i < picks@.len() ==> #[trigger] picks@[i] < ARC_CHARSET_LEN,
    ensures
        r@ == picked(picks@),
        is_arc_id(r@),
{
    proof {
        reveal_strlit("abcdefghijklmnopqrstuvwxyzABCDEFGHIJKLMNOPQRSTUVWXYZ0123456789_-");
    }
    let charset = chars_of(ARC_CHARSET);
    let mut id = String::new();
    assert(id@ =~= picked(picks@.take(0)));
    for i in 0..picks.len()
        invariant
            charset@ == ARC_CHARSET@,
            charset@.len() == ARC_CHARSET_LEN,
            forall|j: int| 0 <= j < picks@.len() ==> #[trigger] picks@[j] < ARC_CHARSET_LEN,
            id@ == picked(picks@.take(i as int)),
    {
        id.push(charset[picks[i]]);
        assert(id@ =~= picked(picks@.take(i + 1)));
    }
    assert(picks@.take(picks@.len() as int) =~= picks@);
    assert forall|i: int| 0 <= i < id@.len() implies ARC_CHARSET@.contains(#[trigger] id@[i]) by {
        assert(id@[i] == ARC_CHARSET@[picks@[i] as int]);
    }
    id
}

/// Generates a fresh random arc_id string.
pub fn generate_arc_id() -> (r: String)
    ensures
        is_arc_id(r@),
{
    let mut picks: Vec<usize> = Vec::new();
    for i in 0..ARC_ID_LEN
        invariant
            picks@.len() == i,
            forall|j: int| 0 <= j < picks@.len() ==> #[trigger] picks@[j] < ARC_CHARSET_LEN,
    {
        picks.push(random_index(ARC_CHARSET_LEN));
    }
    arc_id(&picks)
}

/// The `async` parameter value for a request with an arc_id.
pub fn async_param(id: &str) -> (r: String)
    ensures
        r@ == async_value(id@),
{
    let mut param = "arc_id:srp_".to_owned();
    append(&mut param, id);
    append(&mut param, "_100,use_ac:true,_fmt:prog");
    param
}

impl ArcId {
    /// Whether the arc_id has to be replaced.
    pub fn stale(&self, now: u128) -> (r: bool)
        ensures
            r == is_stale(self.created, now),
    {
        now > self.created && now - self.created > ARC_ID_TTL
    }

    /// Takes the fresh arc_id in place of a stale one.
    pub fn rotate(&mut self, now: u128, fresh: String)
        ensures
            *final(self) == if is_stale(old(self).created, now) {
                ArcId { id: fresh, created: now }
            } else {
                *old(self)
            },
    {
        if self.stale(now) {
            *self = ArcId { id: fresh, created: now };
        }
    }
}

/// Returns the `async` parameter value for the current arc_id, rotating it if
/// stale.
pub fn get_async_param(arc: &mut ArcId, now: u128) -> (r: String)
    ensures
        r@ == async_value(final(arc).id@),
        is_stale(old(arc).created, now) ==> final(arc).created == now && is_arc_id(
            final(arc).id@,
        ),
        !is_stale(old(arc).created, now) ==> *final(arc) == *old(arc),
        !is_stale(final(arc).created, now),
        is_arc_id(old(arc).id@) ==> is_arc_id(final(arc).id@),
{
    if arc.stale(now) {
        arc.rotate(now, generate_arc_id());
    }
    async_param(arc.id.as_str())
}

// --- Requests ---

/// A request to be sent: a GET of `url` with these headers.
#[derive(Clone, Debug, PartialEq, Eq)]
pub struct HttpRequest {
    pub url: String,
    pub headers: Vec<(&'static str, &'static str)>,
}

/// Where Google is searched.
pub const SEARCH_URL: &'static str = "https://www.google.com/search";

/// Where Google is asked for suggestions.
pub const SUGGEST_URL: &'static str = "https://suggestqueries.google.com/complete/search";

/// The query parameters of a search.
pub open spec fn search_params(query: Seq<char>, async_param: Seq<char>) -> Seq<
    (Seq<char>, Seq<char>),
> {
    seq![
        ("q"@, query),
        ("hl"@, "en-US"@),
        ("ie"@, "utf8"@),
        ("oe"@, "utf8"@),
        ("filter"@, "0"@),
        ("start"@, "0"@),
        ("asearch"@, "arc"@),
        ("async"@, async_param),
    ]
}

/// The headers of a search.
pub open spec fn search_headers(agent: Seq<char>) -> Seq<(Seq<char>, Seq<char>)> {
    seq![
        ("User-Agent"@, agent),
        ("Accept"@, "*/*"@),
        ("Cookie"@, "CONSENT=YES+"@),
        ("Sec-Fetch-Dest"@, "empty"@),
        ("Sec-Fetch-Mode"@, "cors"@),
        ("Sec-Fetch-Site"@, "same-origin"@),
    ]
}

/// The query parameters of a request for suggestions.
pub open spec fn suggest_params(query: Seq<char>) -> Seq<(Seq<char>, Seq<char>)> {
    seq![
        ("output"@, "firefox"@),
        ("client"@, "firefox"@),
        ("hl"@, "US-en"@),
        ("q"@, query),
    ]
}

/// The query parameters of an image search.
pub open spec fn image_params(query: Seq<char>) -> Seq<(Seq<char>, Seq<char>)> {
    seq![("q"@, query), ("udm"@, "2"@), ("prmd"@, "ivsnmbtz"@)]
}

impl HttpRequest {
    /// Whether this is the search for `query`.
    pub open spec fn is_search(
        self,
        query: Seq<char>,
        async_param: Seq<char>,
        agent: Seq<char>,
    ) -> bool {
        &&& self.url@ == url_with_query(SEARCH_URL@, search_params(query, async_param))
        &&& begins(self.url@, SEARCH_URL@ + "?"@)
        &&& pairs(self.headers@) == search_headers(agent)
    }
}

/// The URLs that are asked are plain ones.
proof fn lemma_plain_urls()
    ensures
        plain_parts(SEARCH_URL@) is Some,
        plain_parts(SUGGEST_URL@) is Some,
{
    reveal_strlit("https://");
    reveal_strlit("https://www.google.com/search");
    reveal_strlit("https://suggestqueries.google.com/complete/search");
    assert(SEARCH_URL@.subrange(0, 8) =~= "https://"@);
    assert(SUGGEST_URL@.subrange(0, 8) =~= "https://"@);
    lemma_plain_url(SEARCH_URL@, 14);
    lemma_plain_url(SUGGEST_URL@, 25);
}

/// A URL is plain where its host, of `length` characters, and its path are.
proof fn lemma_plain_url(url: Seq<char>, length: int)
    requires
        begins(url, "https://"@),
        0 < length < url.len() - 8,
        is_plain_host(url.subrange(8, 8 + length)),
        is_plain_path(url.skip(8 + length)),
        url[8 + length] == '/',
    ensures
        plain_parts(url) is Some,
{
    let rest = url.skip(8);
    assert(rest.contains('/')) by {
        assert(rest[length] == '/');
    }
    rest.index_of_first_ensures('/');
    let host = url.subrange(8, 8 + length);
    let at = rest.index_of_first('/').unwrap();
    assert(rest[at] == '/');
    if at < length {
        assert(host[at] == rest[at]);
        assert('a' <= host[at] <= 'z' || host[at] == '.');
    }
    assert(rest[length] == '/');
    assert(at == length);
    assert(rest.take(length) =~= host);
    assert(rest.skip(length) =~= url.skip(8 + length));
}

/// The search for `query` with an `async` parameter value and a User-Agent
/// string.
pub fn request_with(query: &str, async_param: &str, agent: &'static str) -> (r: HttpRequest)
    ensures
        r.is_search(query@, async_param@, agent@),
{
    let params = vec![
        ("q", query),
        ("hl", "en-US"),
        ("ie", "utf8"),
        ("oe", "utf8"),
        ("filter", "0"),
        ("start", "0"),
        ("asearch", "arc"),
        ("async", async_param),
    ];
    proof {
        lemma_plain_urls();
        assert(pairs(params@) =~= search_params(query@, async_param@));
    }
    let url = build_url(SEARCH_URL, &params);
    let headers = vec![
        ("User-Agent", agent),
        ("Accept", "*/*"),
        // Pre-accept Google's consent screen (EU cookie wall).
        ("Cookie", "CONSENT=YES+"),
        ("Sec-Fetch-Dest", "empty"),
        ("Sec-Fetch-Mode", "cors"),
        ("Sec-Fetch-Site", "same-origin"),
    ];
    assert(pairs(headers@) =~= search_headers(agent@));
    HttpRequest { url, headers }
}

/// The search with the current arc_id, which is rotated if stale, and with one
/// of the User-Agent strings.
pub fn request(search: &SearchQuery, arc: &mut ArcId, now: u128) -> (r: HttpRequest)
    ensures
        exists|i: int|
            0 <= i < gsa_user_agents().len() && r.is_search(
                search.query@,
                async_value(final(arc).id@),
                #[trigger] gsa_user_agents()[i],
            ),
        is_stale(old(arc).created, now) ==> final(arc).created == now && is_arc_id(
            final(arc).id@,
        ),
        !is_stale(old(arc).created, now) ==> *final(arc) == *old(arc),
        !is_stale(final(arc).created, now),
        is_arc_id(old(arc).id@) ==> is_arc_id(final(arc).id@),
{
    let param = get_async_param(arc, now);
    let agent = user_agent(random_index(GSA_USER_AGENTS_LEN));
    request_with(search.query.as_str(), param.as_str(), agent)
}

/// The URL that suggestions for `query` are asked from.
pub fn request_autocomplete(query: &str) -> (r: String)
    ensures
        r@ == url_with_query(SUGGEST_URL@, suggest_params(query@)),
        begins(r@, SUGGEST_URL@ + "?"@),
{
    let params = vec![
        ("output", "firefox"),
        ("client", "firefox"),
        ("hl", "US-en"),
        ("q", query),
    ];
    proof {
        lemma_plain_urls();
        assert(pairs(params@) =~= suggest_params(query@));
    }
    build_url(SUGGEST_URL, &params)
}

/// The URL that images for `query` are asked from.
pub fn request_images(query: &str) -> (r: String)
    ensures
        r@ == url_with_query(SEARCH_URL@, image_params(query@)),
        begins(r@, SEARCH_URL@ + "?"@),
{
    // Google also has a json api for images but it gives us fewer results.
    let params = vec![("q", query), ("udm", "2"), ("prmd", "ivsnmbtz")];
    proof {
        lemma_plain_urls();
        assert(pairs(params@) =~= image_params(query@));
    }
    build_url(SEARCH_URL, &params)
}

// --- Redirects ---

/// What Google puts before the destination of a result.
pub const REDIRECT_PREFIX: &'static str = "/url?q=";

/// What Google puts behind the destination of a result.
pub const REDIRECT_MARK: &'static str = "&sa=U";

/// The encoded destination that a Google redirect wraps; nothing where `url` is
/// no such redirect.
pub open spec fn wrapped_destination(url: Seq<char>) -> Option<Seq<char>> {
    if begins(url, REDIRECT_PREFIX@) {
        Some(before(url.skip(REDIRECT_PREFIX@.len() as int), REDIRECT_MARK@))
    } else {
        None
    }
}

/// The decoded text where there is one, else the encoded one.
pub open spec fn decoded_or_as_is(encoded: Seq<char>, decoded: Option<Seq<char>>) -> Seq<char> {
    match decoded {
        Some(text) => text,
        None => encoded,
    }
}

/// The destination URL that `url` stands for.
pub open spec fn cleaned(url: Seq<char>) -> Seq<char> {
    match wrapped_destination(url) {
        Some(encoded) => decoded_or_as_is(encoded, decoded(encoded)),
        None => url,
    }
}

/// The encoded destination that a Google redirect wraps; nothing where `url` is
/// no such redirect.
pub fn destination(url: &str) -> (r: Option<String>)
    ensures
        optional(r) == wrapped_destination(url@),
{
    let chars = chars_of(url);
    if !starts_with(&chars, REDIRECT_PREFIX) {
        return None;
    }
    let prefix = chars_of(REDIRECT_PREFIX);
    let rest = &chars[prefix.len()..chars.len()];
    assert(rest@ =~= url@.skip(prefix@.len() as int));
    let mark = chars_of(REDIRECT_MARK);
    match find(rest, &mark) {
        Some(at) => {
            proof {
                lemma_before(rest@, mark@, at as int);
            }
            assert(rest@.subrange(0, at as int) =~= before(rest@, mark@));
            Some(string_of(&rest[0..at]))
        },
        None => Some(string_of(rest)),
    }
}

/// The decoded text where there is one, else the encoded one.
pub fn decoded_or(encoded: String, decoded: Option<String>) -> (r: String)
    ensures
        r@ == decoded_or_as_is(encoded@, optional(decoded)),
{
    match decoded {
        Some(text) => text,
        None => encoded,
    }
}

/// Extracts the real destination URL from a Google redirect wrapper.
///
/// Google wraps result URLs in `/url?q=<encoded>&sa=U&...`. This strips the
/// prefix, splits on the `&sa=U` sentinel, and URL-decodes the remainder.
/// Non-wrapped URLs pass through unchanged.
pub fn clean_url(url: &str) -> (r: String)
    ensures
        r@ == cleaned(url@),
{
    match destination(url) {
        Some(encoded) => {
            let decoded = percent_decode(encoded.as_str());
            decoded_or(encoded, decoded)
        },
        None => url.to_owned(),
    }
}

// --- Search results ---

/// Why an answer of Google gives no results.
#[derive(Clone, Copy, Debug, PartialEq, Eq)]
pub enum GoogleError {
    /// Google is blocking requests from this IP (sorry/captcha page).
    Blocked,
    /// The pattern for the internal JSON is refused.
    InvalidPattern,
    /// No script holds the internal JSON.
    NoInternalJson,
    /// The text is not JSON of the right kind.
    InvalidJson,
}

/// What selects a result.
pub const RESULT_SELECTOR: &'static str = "div.MjjYud";

/// What selects the title of a result.
pub const TITLE_SELECTOR: &'static str = "div[role='link']";

/// What selects the link of a result.
pub const LINK_SELECTOR: &'static str = "a[href]";

/// The attribute of a link that holds its URL.
pub const LINK_ATTRIBUTE: &'static str = "href";

/// What selects the description of a result.
pub const DESCRIPTION_SELECTOR: &'static str = "div[data-sncf='1']";

/// The URL, the title and the description of a result.
pub struct ResultTexts {
    pub url: Seq<char>,
    pub title: Seq<char>,
    pub description: Seq<char>,
}

impl View for EngineSearchResult {
    type V = ResultTexts;

    open spec fn view(&self) -> ResultTexts {
        ResultTexts { url: self.url@, title: self.title@, description: self.description@ }
    }
}

/// The texts of results.
pub open spec fn result_texts(results: Seq<EngineSearchResult>) -> Seq<ResultTexts> {
    results.map_values(|result: EngineSearchResult| result@)
}

/// The text, or an empty one.
pub open spec fn or_empty(text: Option<Seq<char>>) -> Seq<char> {
    match text {
        Some(text) => text,
        None => Seq::empty(),
    }
}

/// The first of the texts, or an empty one.
pub open spec fn first_text(found: Seq<Seq<char>>) -> Seq<char> {
    if found.len() > 0 {
        found[0]
    } else {
        Seq::empty()
    }
}

/// The first of the links, or an empty one.
pub open spec fn first_link(found: Seq<Option<Seq<char>>>) -> Seq<char> {
    if found.len() > 0 {
        or_empty(found[0])
    } else {
        Seq::empty()
    }
}

/// The result that is read of an element: its first title and description, and
/// the destination of its first link.
pub open spec fn result_of(row: RowParts) -> ResultTexts {
    ResultTexts {
        url: cleaned(first_link(row.links)),
        title: first_text(row.titles),
        description: first_text(row.descriptions),
    }
}

/// The results that are read of elements.
pub open spec fn results_of(rows: Seq<RowParts>) -> Seq<ResultTexts> {
    rows.map_values(|row: RowParts| result_of(row))
}

/// Whether this is Google's CAPTCHA/block redirect.
pub open spec fn is_blocked(body: Seq<char>) -> bool {
    occurs(body, "sorry.google.com"@) || occurs(body, "/sorry/index"@)
}

/// The elements of an answer that stand for results.
pub open spec fn result_rows(body: Seq<char>) -> Seq<RowParts> {
    html_rows(
        body,
        RESULT_SELECTOR@,
        TITLE_SELECTOR@,
        LINK_SELECTOR@,
        LINK_ATTRIBUTE@,
        DESCRIPTION_SELECTOR@,
    )
}

/// The text, or an empty one.
fn text_or_empty(text: &Option<String>) -> (r: String)
    ensures
        r@ == or_empty(optional(*text)),
{
    match text {
        Some(text) => text.clone(),
        None => {
            let empty = String::new();
            assert(empty@ =~= Seq::empty());
            empty
        },
    }
}

/// The first of the texts, or an empty one.
fn first_or_empty(found: &Vec<String>) -> (r: String)
    ensures
        r@ == first_text(texts(found@)),
{
    if found.len() > 0 {
        found[0].clone()
    } else {
        text_or_empty(&None)
    }
}

/// The first of the links, or an empty one.
fn first_link_or_empty(found: &Vec<Option<String>>) -> (r: String)
    ensures
        r@ == first_link(found@.map_values(|link: Option<String>| optional(link))),
{
    if found.len() > 0 {
        text_or_empty(&found[0])
    } else {
        text_or_empty(&None)
    }
}

/// Whether this is Google's CAPTCHA/block redirect.
pub fn blocked(body: &str) -> (r: bool)
    ensures
        r == is_blocked(body@),
{
    let chars = chars_of(body);
    contains(&chars, "sorry.google.com") || contains(&chars, "/sorry/index")
}

/// The results that are read of elements.
pub fn read_rows(rows: &Vec<Row>) -> (r: Vec<EngineSearchResult>)
    ensures
        result_texts(r@) == results_of(row_parts(rows@)),
{
    let mut results: Vec<EngineSearchResult> = Vec::new();
    for i in 0..rows.len()
        invariant
            result_texts(results@) == results_of(row_parts(rows@)).take(i as int),
    {
        let ghost found = results@;
        let row = &rows[i];
        let link = first_link_or_empty(&row.links);
        results.push(
            EngineSearchResult {
                url: clean_url(link.as_str()),
                title: first_or_empty(&row.titles),
                description: first_or_empty(&row.descriptions),
            },
        );
        assert(results_of(row_parts(rows@))[i as int] == result_of(row@));
        assert(result_texts(results@) =~= result_texts(found).push(results@[i as int]@));
        assert(results_of(row_parts(rows@)).take(i + 1) =~= results_of(row_parts(rows@)).take(
            i as int,
        ).push(result_of(row@)));
    }
    assert(result_texts(results@) =~= results_of(row_parts(rows@)));
    results
}

/// The selectors are plain ones.
proof fn lemma_plain_selectors()
    ensures
        is_plain_selector(RESULT_SELECTOR@),
        is_plain_selector(TITLE_SELECTOR@),
        is_plain_selector(LINK_SELECTOR@),
        is_plain_selector(DESCRIPTION_SELECTOR@),
        is_plain_selector(SCRIPT_SELECTOR@),
{
    reveal_strlit("div");
    reveal_strlit("a");
    reveal_strlit("script");
    reveal_strlit("MjjYud");
    reveal_strlit("role");
    reveal_strlit("link");
    reveal_strlit("href");
    reveal_strlit("data-sncf");
    reveal_strlit("1");
    reveal_strlit(".");
    reveal_strlit("[");
    reveal_strlit("]");
    reveal_strlit("='");
    reveal_strlit("']");
    reveal_strlit("div.MjjYud");
    reveal_strlit("div[role='link']");
    reveal_strlit("a[href]");
    reveal_strlit("div[data-sncf='1']");
    assert(is_name("div"@) && is_name("a"@) && is_name("script"@));
    let class = Condition::Class("MjjYud"@);
    assert(RESULT_SELECTOR@ =~= "div"@ + class.css());
    let role = Condition::Valued("role"@, "link"@);
    assert(TITLE_SELECTOR@ =~= "div"@ + role.css());
    let href = Condition::Attribute("href"@);
    assert(LINK_SELECTOR@ =~= "a"@ + href.css());
    let sncf = Condition::Valued("data-sncf"@, "1"@);
    assert(DESCRIPTION_SELECTOR@ =~= "div"@ + sncf.css());
    let nothing = Condition::Nothing;
    assert(SCRIPT_SELECTOR@ =~= "script"@ + nothing.css());
}

/// The results of a search. A title, a link or a description that is missing is
/// empty.
pub fn parse_response(body: &str) -> (r: Result<EngineResponse, GoogleError>)
    ensures
        match r {
            Ok(response) => !is_blocked(body@) && result_texts(response.search_results@)
                == results_of(result_rows(body@)),
            Err(error) => is_blocked(body@) && error == GoogleError::Blocked,
        },
{
    // Detect Google's CAPTCHA/block redirect (sorry.google.com).
    if blocked(body) {
        return Err(GoogleError::Blocked);
    }
    proof {
        lemma_plain_selectors();
    }
    let rows = select_rows(
        body,
        RESULT_SELECTOR,
        TITLE_SELECTOR,
        LINK_SELECTOR,
        LINK_ATTRIBUTE,
        DESCRIPTION_SELECTOR,
    );
    Ok(EngineResponse { search_results: read_rows(&rows) })
}

// --- Suggestions ---

/// The suggestions in a list: its texts, and an empty one for anything else.
pub open spec fn suggestion_texts(items: Seq<Tree>) -> Seq<Seq<char>> {
    items.map_values(|item: Tree| or_empty(text_of(item)))
}

/// The suggestions in an answer, which is a list with the suggestions in second
/// place; nothing where it is no list.
pub open spec fn suggestions(document: Tree) -> Option<Seq<Seq<char>>> {
    match document {
        Tree::List(_) => Some(
            match item_of(document, 1) {
                Some(Tree::List(items)) => suggestion_texts(items),
                _ => Seq::empty(),
            },
        ),
        _ => None,
    }
}

/// The suggestions in an answer.
pub fn read_suggestions(document: &Data) -> (r: Result<Vec<String>, GoogleError>)
    ensures
        match r {
            Ok(found) => suggestions(document@) == Some(texts(found@)),
            Err(error) => suggestions(document@) is None && error == GoogleError::InvalidJson,
        },
{
    let mut found: Vec<String> = Vec::new();
    assert(texts(found@) =~= Seq::empty());
    match document {
        Data::List(_) => {
            if let Some(second) = item(document, 1) {
                if let Data::List(items) = second {
                    let ghost trees = second@->List_0;
                    for i in 0..items.len()
                        invariant
                            *second == Data::List(*items),
                            trees == second@->List_0,
                            texts(found@) == suggestion_texts(trees).take(i as int),
                    {
                        let ghost so_far = found@;
                        assert(trees[i as int] == items@[i as int]@);
                        found.push(text_or_empty(&text_in(&items[i])));
                        assert(texts(found@) =~= texts(so_far).push(found@[i as int]@));
                        assert(suggestion_texts(trees).take(i + 1) =~= suggestion_texts(
                            trees,
                        ).take(i as int).push(or_empty(text_of(trees[i as int]))));
                    }
                    assert(texts(found@) =~= suggestion_texts(trees));
                }
            }
            Ok(found)
        },
        _ => Err(GoogleError::InvalidJson),
    }
}

/// The suggestions in the answer to a request for suggestions.
pub fn parse_autocomplete_response(body: &str) -> (r: Result<Vec<String>, GoogleError>)
    ensures
        match r {
            Ok(found) => json_document(body@) is Some && suggestions(json_document(body@)->0)
                == Some(texts(found@)),
            Err(error) => error == GoogleError::InvalidJson && (json_document(body@) is None
                || suggestions(json_document(body@)->0) is None),
        },
{
    match read_json(body) {
        Some(document) => read_suggestions(&document),
        None => Err(GoogleError::InvalidJson),
    }
}

// --- Images ---

/// What selects a script.
pub const SCRIPT_SELECTOR: &'static str = "script";

/// The pattern whose first group is the internal JSON.
pub const INTERNAL_JSON_PATTERN: &'static str =
    r#"(?:\(function\(\)\{google\.jl=\{.+?)var \w=(\{".+?\});"#;

/// What is read of an image.
pub struct ImageParts {
    pub image_url: Seq<char>,
    pub page_url: Seq<char>,
    pub title: Seq<char>,
    pub width: u64,
    pub height: u64,
}

impl View for EngineImageResult {
    type V = ImageParts;

    open spec fn view(&self) -> ImageParts {
        ImageParts {
            image_url: self.image_url@,
            page_url: self.page_url@,
            title: self.title@,
            width: self.width,
            height: self.height,
        }
    }
}

/// What is read of several images.
pub open spec fn image_parts(images: Seq<EngineImageResult>) -> Seq<ImageParts> {
    images.map_values(|image: EngineImageResult| image@)
}

/// The number, where it is a natural number below 2^64.
pub open spec fn natural_of(tree: Tree) -> Option<u64> {
    match tree {
        Tree::Integer(n) => if 0 <= n <= u64::MAX {
            Some(n as u64)
        } else {
            None
        },
        _ => None,
    }
}

/// The URL, the width and the height in a list of just these three.
pub open spec fn picture_of(tree: Tree) -> Option<(Seq<char>, u64, u64)> {
    match tree {
        Tree::List(items) => if items.len() == 3 {
            match (text_of(items[0]), natural_of(items[1]), natural_of(items[2])) {
                (Some(url), Some(width), Some(height)) => Some((url, width, height)),
                _ => None,
            }
        } else {
            None
        },
        _ => None,
    }
}

/// The URL and the title of the page in a list that has them in third and in
/// fourth place.
pub open spec fn page_of(tree: Tree) -> Option<(Seq<char>, Seq<char>)> {
    match (item_of(tree, 2), item_of(tree, 3)) {
        (Some(url), Some(title)) => match (text_of(url), text_of(title)) {
            (Some(url), Some(title)) => Some((url, title)),
            _ => None,
        },
        _ => None,
    }
}

/// The list in which an element of the internal JSON describes its page.
pub open spec fn page_list(element: Tree) -> Option<Tree> {
    match item_of(element, 9) {
        Some(table) => entry_of(table, "2003"@),
        None => None,
    }
}

/// The image that an element of the internal JSON describes: a list whose
/// second item is a list with the picture in fourth place and, in tenth place,
/// a table with the page under "2003".
pub open spec fn image_of(element: Tree) -> Option<ImageParts> {
    match item_of(element, 1) {
        Some(inner) => match (item_of(inner, 3), page_list(inner)) {
            (Some(picture), Some(page)) => match (picture_of(picture), page_of(page)) {
                (Some((image_url, width, height)), Some((page_url, title))) => Some(
                    ImageParts { image_url, page_url, title, width, height },
                ),
                _ => None,
            },
            _ => None,
        },
        None => None,
    }
}

/// The images that the entries of the internal JSON describe, in their order.
/// Entries that describe none are skipped.
pub open spec fn images_of(entries: Seq<(Seq<char>, Tree)>) -> Seq<ImageParts>
    decreases entries.len(),
{
    if entries.len() == 0 {
        Seq::empty()
    } else {
        let before = images_of(entries.drop_last());
        match image_of(entries.last().1) {
            Some(image) => before.push(image),
            None => before,
        }
    }
}

/// The first of the texts that is there.
pub open spec fn first_found(found: Seq<Option<Seq<char>>>) -> Option<Seq<char>>
    decreases found.len(),
{
    if found.len() == 0 {
        None
    } else if found[0] is Some {
        found[0]
    } else {
        first_found(found.drop_first())
    }
}

/// What the pattern for the internal JSON finds in each script.
pub open spec fn json_in_scripts(scripts: Seq<Seq<char>>) -> Seq<Option<Seq<char>>> {
    scripts.map_values(|script: Seq<char>| first_group(INTERNAL_JSON_PATTERN@, script))
}

/// The internal JSON of the first script that has any.
pub open spec fn internal_json(body: Seq<char>) -> Option<Seq<char>> {
    first_found(json_in_scripts(html_inside(body, SCRIPT_SELECTOR@)))
}

/// The number, where it is a natural number below 2^64.
fn natural(data: &Data) -> (r: Option<u64>)
    ensures
        r == natural_of(data@),
{
    match data {
        Data::Integer(n) => if 0 <= *n && *n <= u64::MAX as i128 {
            Some(*n as u64)
        } else {
            None
        },
        _ => None,
    }
}

/// The URL, the width and the height in a list of just these three.
fn picture(data: &Data) -> (r: Option<(String, u64, u64)>)
    ensures
        match r {
            Some((url, width, height)) => picture_of(data@) == Some((url@, width, height)),
            None => picture_of(data@) is None,
        },
{
    if let Data::List(items) = data {
        if items.len() == 3 {
            let url = text_in(&items[0]);
            let width = natural(&items[1]);
            let height = natural(&items[2]);
            if let (Some(url), Some(width), Some(height)) = (url, width, height) {
                return Some((url, width, height));
            }
        }
    }
    None
}

/// The image that an element of the internal JSON describes.
pub fn read_image(element: &Data) -> (r: Option<EngineImageResult>)
    ensures
        match r {
            Some(image) => image_of(element@) == Some(image@),
            None => image_of(element@) is None,
        },
{
    // The internal json uses arrays instead of maps, which makes it kinda hard to
    // use and also probably pretty unstable.
    let inner = item(element, 1)?;
    let (image_url, width, height) = picture(item(inner, 3)?)?;
    // This is probably pretty brittle, hopefully Google doesn't break it any
    // time soon.
    let page = lookup(item(inner, 9)?, "2003")?;
    let page_url = text_in(item(page, 2)?)?;
    let title = text_in(item(page, 3)?)?;
    Some(EngineImageResult { image_url, page_url, title, width, height })
}

/// The images that the internal JSON describes.
pub fn read_images(document: &Data) -> (r: Result<Vec<EngineImageResult>, GoogleError>)
    ensures
        match r {
            Ok(images) => document@ is Table && image_parts(images@) == images_of(
                document@->Table_0,
            ),
            Err(error) => !(document@ is Table) && error == GoogleError::InvalidJson,
        },
{
    match document {
        Data::Table(entries) => {
            let ghost trees = document@->Table_0;
            let mut images: Vec<EngineImageResult> = Vec::new();
            assert(image_parts(images@) =~= images_of(trees.take(0)));
            for i in 0..entries.len()
                invariant
                    *document == Data::Table(*entries),
                    trees == document@->Table_0,
                    image_parts(images@) == images_of(trees.take(i as int)),
            {
                let ghost so_far = images@;
                assert(trees.take(i + 1).drop_last() =~= trees.take(i as int));
                assert(trees.take(i + 1).last() == (entries@[i as int].0@, entries@[i as int].1@));
                if let Some(image) = read_image(&entries[i].1) {
                    images.push(image);
                    assert(image_parts(images@) =~= image_parts(so_far).push(image@));
                }
            }
            assert(trees.take(trees.len() as int) =~= trees);
            Ok(images)
        },
        _ => Err(GoogleError::InvalidJson),
    }
}

/// The internal JSON of the first script that has any.
pub fn find_internal_json(scripts: &Vec<String>) -> (r: Result<Option<String>, GoogleError>)
    ensures
        match r {
            Ok(found) => is_pattern(INTERNAL_JSON_PATTERN@) && optional(found) == first_found(
                json_in_scripts(texts(scripts@)),
            ),
            Err(error) => !is_pattern(INTERNAL_JSON_PATTERN@) && error
                == GoogleError::InvalidPattern,
        },
{
    let regex = match regex::Regex::new(INTERNAL_JSON_PATTERN) {
        Ok(regex) => regex,
        Err(_) => {
            return Err(GoogleError::InvalidPattern);
        },
    };
    let ghost all = json_in_scripts(texts(scripts@));
    assert(all.skip(0) =~= all);
    for i in 0..scripts.len()
        invariant
            is_pattern(INTERNAL_JSON_PATTERN@),
            pattern_of(regex) == INTERNAL_JSON_PATTERN@,
            all == json_in_scripts(texts(scripts@)),
            first_found(all) == first_found(all.skip(i as int)),
    {
        let found = capture(&regex, scripts[i].as_str());
        assert(all.skip(i as int)[0] == optional(found));
        assert(all.skip(i as int).drop_first() =~= all.skip(i + 1));
        if found.is_some() {
            return Ok(found);
        }
    }
    Ok(None)
}

/// The images of an image search.
///
/// We can't just scrape the html because it won't give us the image sources, so
/// we have to scrape their internal json.
pub fn parse_images_response(body: &str) -> (r: Result<EngineImagesResponse, GoogleError>)
    ensures
        match r {
            Ok(response) => {
                &&& is_pattern(INTERNAL_JSON_PATTERN@)
                &&& internal_json(body@) is Some
                &&& json_document(internal_json(body@)->0) is Some
                &&& json_document(internal_json(body@)->0)->0 is Table
                &&& image_parts(response.image_results@) == images_of(
                    json_document(internal_json(body@)->0)->0->Table_0,
                )
            },
            Err(GoogleError::InvalidPattern) => !is_pattern(INTERNAL_JSON_PATTERN@),
            Err(GoogleError::NoInternalJson) => is_pattern(INTERNAL_JSON_PATTERN@)
                && internal_json(body@) is None,
            Err(GoogleError::InvalidJson) => {
                &&& is_pattern(INTERNAL_JSON_PATTERN@)
                &&& internal_json(body@) is Some
                &&& json_document(internal_json(body@)->0) is None || !(json_document(
                    internal_json(body@)->0,
                )->0 is Table)
            },
            Err(GoogleError::Blocked) => false,
        },
{
    proof {
        lemma_plain_selectors();
    }
    let scripts = select_inside(body, SCRIPT_SELECTOR);
    let internal_json = match find_internal_json(&scripts) {
        Ok(found) => found,
        Err(error) => {
            return Err(error);
        },
    };
    let text = match internal_json {
        Some(text) => text,
        None => {
            return Err(GoogleError::NoInternalJson);
        },
    };
    match read_json(text.as_str()) {
        Some(document) => match read_images(&document) {
            Ok(image_results) => Ok(EngineImagesResponse { image_results }),
            Err(error) => Err(error),
        },
        None => Err(GoogleError::InvalidJson),
    }
}

// --- Laws ---

/// A URL that is no redirect is left as it is.
pub proof fn law_other_urls_pass_through(url: Seq<char>)
    requires
        !begins(url, REDIRECT_PREFIX@),
    ensures
        cleaned(url) == url,
{
}

/// What a redirect wraps comes out again, whatever follows the mark.
pub proof fn law_redirects_are_unwrapped(encoded: Seq<char>, rest: Seq<char>)
    requires
        !occurs(encoded, REDIRECT_MARK@),
    ensures
        wrapped_destination(REDIRECT_PREFIX@ + encoded + REDIRECT_MARK@ + rest) == Some(encoded),
        wrapped_destination(REDIRECT_PREFIX@ + encoded) == Some(encoded),
{
    let prefix = REDIRECT_PREFIX@;
    let mark = REDIRECT_MARK@;
    reveal_strlit("/url?q=");
    reveal_strlit("&sa=U");
    let url = prefix + encoded + mark + rest;
    let tail = encoded + mark + rest;
    assert(url.subrange(0, prefix.len() as int) =~= prefix);
    assert(url.skip(prefix.len() as int) =~= tail);
    let at = encoded.len() as int;
    assert(tail.subrange(at, at + mark.len()) =~= mark);
    assert forall|j: int| 0 <= j < at implies !occurs_at(tail, mark, j) by {
        if occurs_at(tail, mark, j) {
            let found = tail.subrange(j, j + mark.len());
            if j + mark.len() <= at {
                assert(encoded.subrange(j, j + mark.len()) =~= found);
                assert(occurs_at(encoded, mark, j));
            } else {
                assert(found[at - j] == tail[at]);
                assert(tail[at] == mark[0]);
            }
        }
    }
    lemma_before(tail, mark, at);
    assert(tail.take(at) =~= encoded);

    let short = prefix + encoded;
    assert(short.subrange(0, prefix.len() as int) =~= prefix);
    assert(short.skip(prefix.len() as int) =~= encoded);
}

/// Each element of the internal JSON is read by itself: what stands before or
/// after it changes nothing.
pub proof fn law_images_are_read_one_by_one(
    some: Seq<(Seq<char>, Tree)>,
    more: Seq<(Seq<char>, Tree)>,
)
    ensures
        images_of(some + more) == images_of(some) + images_of(more),
    decreases more.len(),
{
    if more.len() == 0 {
        assert(some + more =~= some);
        assert(images_of(some) + images_of(more) =~= images_of(some));
    } else {
        law_images_are_read_one_by_one(some, more.drop_last());
        assert((some + more).drop_last() =~= some + more.drop_last());
        assert((some + more).last() == more.last());
        assert(images_of(some + more) =~= images_of(some) + images_of(more));
    }
}

/// Whatever the picks, the arc_id has its length and its characters, and the
/// request shows it between fixed texts.
pub proof fn law_arc_ids_are_well_formed(picks: Seq<usize>)
    requires
        picks.len() == ARC_ID_LEN,
        forall|i: int| 0 <= i < picks.len() ==> #[trigger] picks[i] < ARC_CHARSET_LEN,
    ensures
        is_arc_id(picked(picks)),
        async_value(picked(picks)).len() == 60,
{
    reveal_strlit("abcdefghijklmnopqrstuvwxyzABCDEFGHIJKLMNOPQRSTUVWXYZ0123456789_-");
    reveal_strlit("arc_id:srp_");
    reveal_strlit("_100,use_ac:true,_fmt:prog");
    let id = picked(picks);
    assert forall|i: int| 0 <= i < id.len() implies ARC_CHARSET@.contains(#[trigger] id[i]) by {
        assert(id[i] == ARC_CHARSET@[picks[i] as int]);
    }
}

} // verus!
