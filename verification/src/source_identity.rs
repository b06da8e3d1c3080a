//! Who publishes a result, by its domain and the structure of its URL.

use crate::number::Binary64;
use crate::reputation::{
    law_blocked_weighs_zero, law_reputation_overrides_blocklist, RerankData,
};
use crate::text::{
    append, begins, chars_of, contains, count_separators, ends, ends_with,
    lemma_pieces_are_separated, occurs, separators_in, split, split_chars, starts_with, string_of,
    views, words, words_of, Separator,
};
use crate::unicode::{lowered, text_to_lowercase};
use crate::web::{
    alternation, any_occurs, is_plain_word, joined, optional, parse_url, parts_of, ParsedUrl,
    UrlParts,
};
use vstd::prelude::*;

verus! {

// --- Domains ---

/// A host without a leading `www.`.
pub open spec fn domain_of(host: Seq<char>) -> Seq<char> {
    if begins(host, "www."@) {
        host.skip(4)
    } else {
        host
    }
}

/// The domain of a URL with these parts; nothing where there is no host.
pub open spec fn parts_domain(parts: UrlParts) -> Option<Seq<char>> {
    match parts.host {
        Some(host) => Some(domain_of(host)),
        None => None,
    }
}

/// The domain of `url`; nothing where it is no URL or has no host.
pub open spec fn url_domain(url: Seq<char>) -> Option<Seq<char>> {
    match parts_of(url) {
        Some(parts) => parts_domain(parts),
        None => None,
    }
}

/// Extracts the domain from a URL without `www.`. Nothing comes of what is not
/// a URL or has no host.
pub fn extract_domain(url: &str) -> (r: Option<String>)
    ensures
        optional(r) == url_domain(url@),
{
    match parse_url(url) {
        Some(parsed) => extract_domain_from_parsed(&parsed),
        None => None,
    }
}

/// Extracts the domain from a URL that was taken apart.
pub fn extract_domain_from_parsed(parsed: &ParsedUrl) -> (r: Option<String>)
    ensures
        optional(r) == parts_domain(parsed@),
{
    match &parsed.host {
        Some(host) => {
            let chars = chars_of(host.as_str());
            let length = chars.len();
            if starts_with(&chars, "www.") {
                proof {
                    reveal_strlit("www.");
                }
                assert(chars@.subrange(4, length as int) =~= host@.skip(4));
                Some(string_of(&chars[4..length]))
            } else {
                Some(host.clone())
            }
        },
        None => None,
    }
}

// --- URL structure ---

/// What the structure of a URL says.
pub struct SignalValues {
    pub url_depth: nat,
    pub url_slug_word_count: nat,
    pub is_docs_path: bool,
    pub is_forum_path: bool,
    pub is_institutional_tld: bool,
    pub domain_token_count: nat,
    pub has_subdomain: bool,
    pub is_commercial_pattern: bool,
}

/// What the structure of a URL says.
#[derive(Clone, Copy, Debug, PartialEq, Eq, Structural)]
pub struct UrlSignals {
    /// The slashes of the path.
    pub url_depth: usize,
    /// The words of the last segment of the path.
    pub url_slug_word_count: usize,
    /// Whether the path looks like documentation.
    pub is_docs_path: bool,
    /// Whether the path looks like a forum.
    pub is_forum_path: bool,
    /// Whether the domain is institutional.
    pub is_institutional_tld: bool,
    /// The segments of the domain between dots and hyphens.
    pub domain_token_count: usize,
    /// Whether the domain has more than two labels.
    pub has_subdomain: bool,
    /// Whether the domain looks commercial.
    pub is_commercial_pattern: bool,
}

impl View for UrlSignals {
    type V = SignalValues;

    open spec fn view(&self) -> SignalValues {
        SignalValues {
            url_depth: self.url_depth as nat,
            url_slug_word_count: self.url_slug_word_count as nat,
            is_docs_path: self.is_docs_path,
            is_forum_path: self.is_forum_path,
            is_institutional_tld: self.is_institutional_tld,
            domain_token_count: self.domain_token_count as nat,
            has_subdomain: self.has_subdomain,
            is_commercial_pattern: self.is_commercial_pattern,
        }
    }
}

/// Whether a path in lowercase looks like documentation.
pub open spec fn is_docs_path(lower: Seq<char>) -> bool {
    ||| occurs(lower, "/docs/"@)
    ||| occurs(lower, "/api/"@)
    ||| occurs(lower, "/reference/"@)
    ||| occurs(lower, "/manual/"@)
    ||| occurs(lower, "/wiki/"@)
    ||| occurs(lower, "/spec/"@)
}

/// Whether a path in lowercase looks like a forum.
pub open spec fn is_forum_path(lower: Seq<char>) -> bool {
    ||| occurs(lower, "/forum/"@)
    ||| occurs(lower, "/discuss/"@)
    ||| occurs(lower, "/community/"@)
    ||| occurs(lower, "/questions/"@)
    ||| occurs(lower, "/answers/"@)
}

/// Whether a domain is under an institutional top-level domain.
pub open spec fn is_institutional(domain: Seq<char>) -> bool {
    ||| ends(domain, ".edu"@)
    ||| ends(domain, ".gov"@)
    ||| ends(domain, ".org"@)
    ||| ends(domain, ".mil"@)
}

/// The words that mark a commercial domain.
pub open spec fn commercial_words() -> Seq<&'static str> {
    seq![
        "store", "shop", "buy", "order", "supply", "supplies", "mart", "outlet", "deals",
        "pricing", "law", "legal", "attorney", "lawyer", "consult", "clinic", "therapy",
        "advisor", "seo", "marketing", "agency", "growth", "leadgen", "funnel",
    ]
}

/// What the structure of a URL says.
pub open spec fn url_signals(path: Seq<char>, domain: Seq<char>) -> SignalValues {
    SignalValues {
        url_depth: count_separators(path, Separator::Slash),
        url_slug_word_count: words(split(path, Separator::Slash).last(), Separator::Hyphen).len(),
        is_docs_path: is_docs_path(lowered(path)),
        is_forum_path: is_forum_path(lowered(path)),
        is_institutional_tld: is_institutional(domain),
        domain_token_count: split(domain, Separator::Token).len(),
        has_subdomain: split(domain, Separator::Dot).len() > 2,
        is_commercial_pattern: any_occurs(commercial_words(), domain),
    }
}

/// The regular expression for any of the words.
fn any_of(words: &Vec<&str>) -> (r: String)
    ensures
        r@ == alternation(words@),
{
    let mut pattern = "(".to_owned();
    assert(pattern@ =~= "("@ + joined(words@.take(0)));
    for i in 0..words.len()
        invariant
            pattern@ == "("@ + joined(words@.take(i as int)),
    {
        assert(words@.take(i + 1).drop_last() =~= words@.take(i as int));
        if i > 0 {
            append(&mut pattern, "|");
        }
        append(&mut pattern, words[i]);
        assert(pattern@ =~= "("@ + joined(words@.take(i + 1)));
    }
    assert(words@.take(words@.len() as int) =~= words@);
    append(&mut pattern, ")");
    pattern
}

/// Whether a domain holds one of the words that mark a commercial one.
fn is_commercial(domain: &str) -> (r: bool)
    ensures
        r == any_occurs(commercial_words(), domain@),
{
    let words: Vec<&str> = vec![
        "store", "shop", "buy", "order", "supply", "supplies", "mart", "outlet", "deals",
        "pricing", "law", "legal", "attorney", "lawyer", "consult", "clinic", "therapy",
        "advisor", "seo", "marketing", "agency", "growth", "leadgen", "funnel",
    ];
    proof {
        assert(words@ =~= commercial_words());
        reveal_strlit("store");
        reveal_strlit("shop");
        reveal_strlit("buy");
        reveal_strlit("order");
        reveal_strlit("supply");
        reveal_strlit("supplies");
        reveal_strlit("mart");
        reveal_strlit("outlet");
        reveal_strlit("deals");
        reveal_strlit("pricing");
        reveal_strlit("law");
        reveal_strlit("legal");
        reveal_strlit("attorney");
        reveal_strlit("lawyer");
        reveal_strlit("consult");
        reveal_strlit("clinic");
        reveal_strlit("therapy");
        reveal_strlit("advisor");
        reveal_strlit("seo");
        reveal_strlit("marketing");
        reveal_strlit("agency");
        reveal_strlit("growth");
        reveal_strlit("leadgen");
        reveal_strlit("funnel");
        assert forall|i: int| 0 <= i < words@.len() implies is_plain_word(
            (#[trigger] words@[i])@,
        ) by {
            assert(words@[i] == commercial_words()[i]);
        }
    }
    let pattern = any_of(&words);
    match regex::Regex::new(pattern.as_str()) {
        Ok(regex) => regex.is_match(domain),
        Err(_) => {
            // An alternation of plain words is not refused.
            assert(false);
            false
        },
    }
}

/// Reads the structure of a URL with the given path and domain.
pub fn compute_url_signals(path: &str, domain: &str) -> (r: UrlSignals)
    ensures
        r@ == url_signals(path@, domain@),
{
    let chars = chars_of(path);
    let name = chars_of(domain);
    let lower = chars_of(text_to_lowercase(path).as_str());

    let segments = split_chars(&chars, Separator::Slash);
    let url_slug_word_count = match segments.last() {
        Some(slug) => {
            assert(views(segments@).last() == slug@);
            let list = words_of(slug, Separator::Hyphen);
            assert(views(list@).len() == list@.len());
            list.len()
        },
        None => 0,
    };
    let labels = split_chars(&name, Separator::Dot);
    assert(views(labels@).len() == labels@.len());
    let tokens = split_chars(&name, Separator::Token);
    assert(views(tokens@).len() == tokens@.len());

    UrlSignals {
        url_depth: separators_in(&chars, Separator::Slash),
        url_slug_word_count,
        is_docs_path: contains(&lower, "/docs/") || contains(&lower, "/api/") || contains(
            &lower,
            "/reference/",
        ) || contains(&lower, "/manual/") || contains(&lower, "/wiki/") || contains(
            &lower,
            "/spec/",
        ),
        is_forum_path: contains(&lower, "/forum/") || contains(&lower, "/discuss/") || contains(
            &lower,
            "/community/",
        ) || contains(&lower, "/questions/") || contains(&lower, "/answers/"),
        is_institutional_tld: ends_with(&name, ".edu") || ends_with(&name, ".gov") || ends_with(
            &name,
            ".org",
        ) || ends_with(&name, ".mil"),
        domain_token_count: tokens.len(),
        has_subdomain: labels.len() > 2,
        is_commercial_pattern: is_commercial(domain),
    }
}

// --- Layer 1 ---

/// What is known of the source of a result.
pub enum IdentityValue {
    /// Nothing: the result's URL is none, or has no host.
    Neutral,
    /// The weight of the domain, and what the structure of the URL says.
    Known { weight: Binary64, signals: SignalValues },
}

/// What is known of the source of a result that is not blocked.
#[derive(Clone, Copy, Debug, PartialEq, Eq, Structural)]
pub enum Identity {
    /// Nothing: the result's URL is none, or has no host.
    Neutral,
    /// The weight of the domain, and what the structure of the URL says.
    Known { weight: Binary64, signals: UrlSignals },
}

impl View for Identity {
    type V = IdentityValue;

    open spec fn view(&self) -> IdentityValue {
        match self {
            Identity::Neutral => IdentityValue::Neutral,
            Identity::Known { weight, signals } => IdentityValue::Known {
                weight: *weight,
                signals: signals@,
            },
        }
    }
}

/// What is known of a source whose URL has the given parts. Nothing comes of a
/// source whose domain weighs zero, which is blocked.
pub open spec fn identity(data: &RerankData, parts: Option<UrlParts>) -> Option<IdentityValue> {
    match parts {
        Some(parts) => match parts_domain(parts) {
            Some(domain) => {
                let weight = data.weight(domain);
                if weight.spec_is_zero() {
                    None
                } else {
                    Some(
                        IdentityValue::Known {
                            weight,
                            signals: url_signals(parts.path, domain),
                        },
                    )
                }
            },
            None => Some(IdentityValue::Neutral),
        },
        None => Some(IdentityValue::Neutral),
    }
}

/// What the identity of a source is, mathematically.
pub open spec fn identity_value(identity: Option<Identity>) -> Option<IdentityValue> {
    match identity {
        Some(identity) => Some(identity@),
        None => None,
    }
}

impl RerankData {
    /// Identifies the source of a result by its URL. Nothing comes of a source
    /// that is blocked.
    pub fn score_l1(&self, url: &str) -> (r: Option<Identity>)
        ensures
            identity_value(r) == identity(self, parts_of(url@)),
    {
        match parse_url(url) {
            Some(parsed) => self.score_parsed(&parsed),
            None => Some(Identity::Neutral),
        }
    }

    /// Identifies the source of a result by its URL, which was taken apart.
    pub fn score_parsed(&self, parsed: &ParsedUrl) -> (r: Option<Identity>)
        ensures
            identity_value(r) == identity(self, Some(parsed@)),
    {
        match extract_domain_from_parsed(parsed) {
            Some(domain) => {
                let weight = self.get_domain_weight(domain.as_str());
                if weight.is_zero() {
                    None
                } else {
                    let signals = compute_url_signals(parsed.path.as_str(), domain.as_str());
                    Some(Identity::Known { weight, signals })
                }
            },
            None => Some(Identity::Neutral),
        }
    }
}

// --- Laws ---

/// A source is excluded exactly where its domain weighs zero.
pub proof fn law_only_zero_weight_excludes(data: &RerankData, parts: Option<UrlParts>)
    ensures
        identity(data, parts) is None <==> (parts matches Some(p) && (parts_domain(
            p,
        ) matches Some(domain) && data.weight(domain).spec_is_zero())),
{
}

/// A source whose domain has a reputation other than zero is never excluded,
/// blocked or not.
pub proof fn law_reputation_protects(
    data: &RerankData,
    parts: UrlParts,
    domain: Seq<char>,
)
    requires
        parts_domain(parts) == Some(domain),
        data.reputation().contains_key(domain),
        !data.reputation()[domain].spec_is_zero(),
    ensures
        identity(data, Some(parts)) is Some,
{
    law_reputation_overrides_blocklist(data.reputation(), data.blocklist(), domain);
}

/// A source whose domain is blocked and has no reputation is excluded.
pub proof fn law_blocked_is_excluded(
    data: &RerankData,
    parts: UrlParts,
    domain: Seq<char>,
)
    requires
        parts_domain(parts) == Some(domain),
        data.blocklist().contains(domain),
        !data.reputation().contains_key(domain),
    ensures
        identity(data, Some(parts)) is None,
{
    law_blocked_weighs_zero(data.reputation(), data.blocklist(), domain);
}

/// A host with a leading `www.` has what follows as its domain, and any other
/// host is its own.
pub proof fn law_www_is_stripped(host: Seq<char>)
    ensures
        domain_of("www."@ + host) == host,
        !begins(host, "www."@) ==> domain_of(host) == host,
{
    reveal_strlit("www.");
    let whole = "www."@ + host;
    assert(whole.subrange(0, 4) =~= "www."@);
    assert(whole.skip(4) =~= host);
}

/// A domain has one token more than it has dots and hyphens.
pub proof fn law_tokens_are_separated(path: Seq<char>, domain: Seq<char>)
    ensures
        url_signals(path, domain).domain_token_count == count_separators(domain, Separator::Token)
            + 1,
{
    lemma_pieces_are_separated(domain, Separator::Token);
}

} // verus!
