use std::collections::BTreeSet;

use metasearch::config::weights::RerankConfig;
use metasearch::data::{item, lookup, read_json, read_toml, text_in, Data};
use metasearch::engine::{Engine, SearchResult};
use metasearch::number::Binary64;
use metasearch::order::{descending_order, sort_descending};
use metasearch::relevance::{
    is_combining_mark, score_relevance, trigram_containment, trigrams, WordMatch,
};
use metasearch::reputation::{blocked_domains, reputation_weights, LoadError, RerankData};
use metasearch::rerank::{apply_scores, remove_blocked, rerank, Signals};
use metasearch::source_identity::{
    compute_url_signals, extract_domain, extract_domain_from_parsed, Identity, UrlSignals,
};
use metasearch::vocabulary::{score_l2, L2Features};
use metasearch::web::ParsedUrl;

fn number(x: f64) -> Binary64 {
    Binary64 { bits: x.to_bits() }
}

fn float(n: Binary64) -> f64 {
    f64::from_bits(n.bits)
}

// --- Numbers ---

#[test]
fn numbers_are_ordered_by_rank() {
    let rising = [f64::NEG_INFINITY, -2.5, -f64::MIN_POSITIVE, 0.0, 1e-300, 1.0, 2.0, f64::INFINITY];
    for pair in rising.windows(2) {
        assert!(number(pair[0]).rank() < number(pair[1]).rank());
    }
    assert_eq!(number(-0.0).rank(), number(0.0).rank());
    assert!(number(-0.0).is_zero() && number(0.0).is_zero() && !number(1.0).is_zero());
    assert!(number(f64::NAN).is_nan() && number(-f64::NAN).is_nan());
    assert!(!number(f64::INFINITY).is_nan() && !number(f64::NEG_INFINITY).is_nan());
    assert_eq!(float(Binary64::zero()), 0.0);
    assert_eq!(float(Binary64::one()), 1.0);
}

#[test]
fn max_prefers_numbers() {
    assert_eq!(number(1.0).max(number(2.0)), number(2.0));
    assert_eq!(number(2.0).max(number(-3.0)), number(2.0));
    assert_eq!(number(1.0).max(number(f64::NAN)), number(1.0));
    assert_eq!(number(f64::NAN).max(number(1.0)), number(1.0));
}

#[test]
fn descending_order_is_stable() {
    assert_eq!(descending_order(&vec![1, 3, 2, 3, -1]), vec![1, 3, 2, 0, 4]);
    assert_eq!(sort_descending(vec!["a", "b", "c"], &vec![5, 9, 5]), vec!["b", "a", "c"]);
}

// --- Documents ---

#[test]
fn json_documents_are_read() {
    let data = read_json(r#"{"b": [1, "x", -2, true, null, 1.5], "a": {}}"#).unwrap();
    let list = lookup(&data, "b").unwrap();
    assert!(matches!(item(list, 0), Some(Data::Integer(1))));
    assert_eq!(text_in(item(list, 1).unwrap()), Some("x".to_string()));
    for i in 2..6 {
        assert!(matches!(item(list, i), Some(Data::Other)));
    }
    assert!(item(list, 6).is_none());
    assert!(matches!(lookup(&data, "a"), Some(Data::Table(entries)) if entries.is_empty()));
    assert!(lookup(&data, "c").is_none() && lookup(list, "c").is_none());
    assert!(read_json("{").is_none());
    assert!(matches!(read_json("18446744073709551615"), Some(Data::Integer(n)) if n == u64::MAX as i128));
}

#[test]
fn toml_documents_are_read() {
    let data = read_toml("a = -7\nb = [\"x\", 2.5, true]\n[c.d]\ne = \"f\"\n").unwrap();
    assert!(matches!(lookup(&data, "a"), Some(Data::Integer(-7))));
    let list = lookup(&data, "b").unwrap();
    assert_eq!(text_in(item(list, 0).unwrap()), Some("x".to_string()));
    assert!(matches!(item(list, 1), Some(Data::Other)));
    assert!(matches!(item(list, 2), Some(Data::Other)));
    let inner = lookup(lookup(&data, "c").unwrap(), "d").unwrap();
    assert_eq!(text_in(lookup(inner, "e").unwrap()), Some("f".to_string()));
    assert!(read_toml("a = ").is_none());
}

// --- Reputation ---

const REPUTATION: &str = "\
[pin.docs]\ndomains = [\"docs.rs\", \"shared.com\", 5]\n\
[raise.blogs]\ndomains = [\"blog.example\"]\n\
[neutral.known]\ndomains = [\"plain.example\"]\n\
[lower.farms]\ndomains = [\"farm.example\"]\n\
[block.spam]\ndomains = [\"spam.example\"]\n\
[promote.odd]\ndomains = [\"odd.example\"]\n\
[lower.listless]\ndomains = \"string.example\"\n\
[lower.empty]\nother = 1\n";

#[test]
fn actions_give_weights() {
    let data = RerankData::load(None, Some(REPUTATION)).ok().unwrap();
    let weight = |domain| float(data.get_domain_weight(domain));
    assert_eq!(weight("docs.rs"), 2.0);
    assert_eq!(weight("blog.example"), 1.5);
    assert_eq!(weight("plain.example"), 1.0);
    assert_eq!(weight("farm.example"), 0.3);
    assert_eq!(weight("spam.example"), 0.0);
    // Unknown actions and categories without a list are skipped.
    assert_eq!(weight("odd.example"), 1.0);
    assert_eq!(weight("string.example"), 1.0);
}

#[test]
fn reputation_document_is_walked() {
    let data = read_toml("pin = 3\n[raise]\nx = 1\n[raise.y]\ndomains = [\"y.com\"]\n").unwrap();
    let weights = reputation_weights(&data);
    assert_eq!(weights.get("y.com"), Some(&number(1.5)));
    assert_eq!(weights.get("x"), None);
    assert_eq!(weights.len(), 1);
}

#[test]
fn blocklist_lines_are_domains() {
    let domains = blocked_domains("# comment\n  spam.com \r\n\n\t# indented\njunk.org\nspam.com");
    assert!(domains.contains("spam.com"));
    assert!(domains.contains("junk.org"));
    assert!(!domains.contains("# comment"));
    assert!(!domains.contains(""));
    assert_eq!(domains.len(), 2);
}

#[test]
fn loaded_data_is_counted() {
    let data = RerankData::load(Some("# none\na.com\nb.com\na.com\n"), Some(REPUTATION)).ok().unwrap();
    assert_eq!(data.blocked_count(), 2);
    assert_eq!(data.reputation_count(), 6);
}

#[test]
fn tokens_and_depth_are_counted() {
    assert_eq!(compute_url_signals("/a/b", "example.com").url_depth, 2);
    assert_eq!(compute_url_signals("", "example.com").url_depth, 0);
    assert_eq!(compute_url_signals("/", "example.com").domain_token_count, 2);
    assert_eq!(compute_url_signals("/", "a-b.co-c.uk").domain_token_count, 5);
}

#[test]
fn missing_files_are_neutral() {
    let data = RerankData::load(None, None).ok().unwrap();
    assert_eq!(float(data.get_domain_weight("anything.com")), 1.0);
}

#[test]
fn broken_reputation_is_an_error() {
    assert!(matches!(
        RerankData::load(Some("spam.com"), Some("[pin")),
        Err(LoadError::InvalidReputation)
    ));
}

#[test]
fn blocked_domains_weigh_zero() {
    let data = RerankData::load(Some("spam.com\n"), None).ok().unwrap();
    assert_eq!(float(data.get_domain_weight("spam.com")), 0.0);
    assert_eq!(float(data.get_domain_weight("a.b.spam.com")), 0.0);
    assert_eq!(float(data.get_domain_weight("notspam.com")), 1.0);
    assert_eq!(float(data.get_domain_weight("")), 1.0);
}

#[test]
fn the_nearest_entry_decides() {
    let data = RerankData::new(&vec!["a.com", "com"], &vec![("b.a.com", number(1.5))]);
    assert_eq!(float(data.get_domain_weight("c.b.a.com")), 1.5);
    assert_eq!(float(data.get_domain_weight("c.a.com")), 0.0);
    assert_eq!(float(data.get_domain_weight("x.com")), 0.0);
    assert_eq!(float(data.get_domain_weight("x.org")), 1.0);
}

// --- Source identity ---

#[test]
fn url_signals_are_counted() {
    assert_eq!(
        compute_url_signals("/Docs/guide/how_to--bake", "my-shop.example.org"),
        UrlSignals {
            url_depth: 3,
            url_slug_word_count: 3,
            is_docs_path: true,
            is_forum_path: false,
            is_institutional_tld: true,
            domain_token_count: 4,
            has_subdomain: true,
            is_commercial_pattern: true,
        },
    );
    assert_eq!(
        compute_url_signals("/", "example.com"),
        UrlSignals {
            url_depth: 1,
            url_slug_word_count: 0,
            is_docs_path: false,
            is_forum_path: false,
            is_institutional_tld: false,
            domain_token_count: 2,
            has_subdomain: false,
            is_commercial_pattern: false,
        },
    );
}

#[test]
fn path_patterns_are_whole_segments() {
    for path in ["/docs/", "/a/api/b", "/reference/x", "/manual/", "/wiki/Rust", "/SPEC/1"] {
        assert!(compute_url_signals(path, "a.b").is_docs_path, "{path}");
    }
    for path in ["/forum/1", "/discuss/", "/community/x", "/questions/1", "/x/answers/y"] {
        assert!(compute_url_signals(path, "a.b").is_forum_path, "{path}");
    }
    for path in ["/docs", "/mydocs/", "", "/document/"] {
        let signals = compute_url_signals(path, "a.b");
        assert!(!signals.is_docs_path && !signals.is_forum_path, "{path}");
    }
}

#[test]
fn institutional_and_commercial_domains() {
    for domain in ["mit.edu", "nasa.gov", "a.org", "army.mil"] {
        assert!(compute_url_signals("/", domain).is_institutional_tld, "{domain}");
    }
    assert!(!compute_url_signals("/", "edu.com").is_institutional_tld);
    for domain in ["bookstore.com", "myseo.net", "lawyers.io", "leadgen.co", "supplies.example"] {
        assert!(compute_url_signals("/", domain).is_commercial_pattern, "{domain}");
    }
    assert!(!compute_url_signals("/", "docs.rs").is_commercial_pattern);
    assert!(!compute_url_signals("/", "SHOP").is_commercial_pattern);
}

#[test]
fn unparsable_urls_are_neutral() {
    let data = RerankData::new(&vec!["com"], &vec![]);
    assert!(matches!(data.score_l1("not a url"), Some(Identity::Neutral)));
    assert!(matches!(data.score_l1("mailto:a@b.com"), Some(Identity::Neutral)));
    assert!(data.score_l1("https://x.com/").is_none());
}

#[test]
fn identity_has_weight_and_signals() {
    let data = RerankData::new(&vec![], &vec![("example.com", number(1.5))]);
    match data.score_l1("https://WWW.Example.com:8080/wiki/A-b?q=/api/#x") {
        Some(Identity::Known { weight, signals }) => {
            assert_eq!(float(weight), 1.5);
            assert_eq!(signals, compute_url_signals("/wiki/A-b", "example.com"));
            assert_eq!(signals.url_slug_word_count, 2);
        }
        other => panic!("{other:?}"),
    }
    let parsed = ParsedUrl { host: Some("spam.com".to_string()), path: "/".to_string() };
    assert!(RerankData::new(&vec!["spam.com"], &vec![]).score_parsed(&parsed).is_none());
    assert!(RerankData::new(&vec!["spam.com"], &vec![("spam.com", number(0.3))])
        .score_parsed(&parsed)
        .is_some());
}

#[test]
fn negative_zero_weight_excludes_too() {
    let data = RerankData::new(&vec![], &vec![("a.com", number(-0.0))]);
    assert!(data.score_l1("https://a.com/").is_none());
}

#[test]
fn only_one_www_is_stripped() {
    assert_eq!(extract_domain("https://www.www.a.com/"), Some("www.a.com".to_string()));
    assert_eq!(extract_domain("https://wwwa.com/"), Some("wwwa.com".to_string()));
    assert_eq!(extract_domain("data:text/plain,x"), None);
    let parsed = ParsedUrl { host: None, path: "x".to_string() };
    assert_eq!(extract_domain_from_parsed(&parsed), None);
}

// --- Vocabulary ---

#[test]
fn vocabulary_is_counted() {
    assert_eq!(
        score_l2("The Rust compiler checks the borrowed   References THE"),
        Some(L2Features { words: 8, capitalized: 3, unique: 6, long: 3, chars: 45 }),
    );
    assert_eq!(score_l2("one two"), None);
    assert_eq!(
        score_l2("\ta\u{a0}b\u{3000}c\n"),
        Some(L2Features { words: 3, capitalized: 0, unique: 3, long: 0, chars: 3 }),
    );
}

#[test]
fn sentence_starts_are_not_capitalized() {
    let capitalized = |text| score_l2(text).unwrap().capitalized;
    assert_eq!(capitalized("one two three. Four five six"), 0);
    assert_eq!(capitalized("Stop! Now Go? Yes No e.g. Rust"), 2);
    assert_eq!(capitalized("a B. C D"), 2);
}

#[test]
fn vocabulary_counts_characters() {
    // Seven letters, of which one takes two bytes.
    assert_eq!(
        score_l2("na\u{ef}vely \u{c9}cole \u{e9}COLE"),
        Some(L2Features { words: 3, capitalized: 1, unique: 2, long: 0, chars: 17 }),
    );
}

// --- Relevance ---

#[test]
fn marks_are_one_block() {
    assert!(is_combining_mark('\u{300}') && is_combining_mark('\u{36f}'));
    assert!(!is_combining_mark('\u{2ff}') && !is_combining_mark('\u{370}'));
}

#[test]
fn trigrams_are_bytes() {
    // Each of these letters takes two bytes after folding.
    let found = trigrams("\u{416}\u{417}");
    assert_eq!(found.len(), 2);
    assert!(found.contains(&[0xd0, 0xb6, 0xd0]));
    assert!(found.contains(&[0xb6, 0xd0, 0xb7]));
    assert_eq!(trigrams("aaaa").len(), 1);
    // This letter takes two bytes, and three in lowercase: by itself it is too
    // short for trigrams.
    assert!(trigrams("\u{23a}").is_empty());
    assert!(trigrams("\u{23e}").is_empty());
    assert_eq!(trigrams("\u{23a}a").len(), 2);
    // The dot above is a mark of its own after decomposition.
    assert_eq!(trigrams("\u{130}ab"), trigrams("iab"));
}

#[test]
fn containment_is_counted() {
    let counted = trigram_containment(&trigrams("gigavoxels"), &trigrams("gigapixel"));
    assert_eq!((counted.found, counted.total), (3, 8));
    let all = trigram_containment(&trigrams("tree"), &trigrams("a KDTree here"));
    assert_eq!((all.found, all.total), (2, 2));
}

#[test]
fn relevance_counts_each_word() {
    assert_eq!(
        score_relevance("kd tree bevy", "KDTree", "for the Bevy engine"),
        vec![
            WordMatch { trigrams: 2, in_title: 2, in_description: 0 },
            WordMatch { trigrams: 2, in_title: 0, in_description: 2 },
        ],
    );
    assert_eq!(score_relevance("a of", "a of", "a of"), vec![]);
    assert_eq!(score_relevance("", "x", "y"), vec![]);
}

// --- Ranking ---

fn result(name: &str, score: f64) -> SearchResult<String> {
    SearchResult { result: name.to_string(), engines: BTreeSet::new(), score: number(score) }
}

fn names(results: &[SearchResult<String>]) -> Vec<&str> {
    results.iter().map(|r| r.result.as_str()).collect()
}

#[test]
fn scores_are_applied_and_ranked() {
    let results = vec![result("a", 9.0), result("b", 8.0), result("c", 7.0), result("d", 6.0)];
    let scores = vec![Some(number(0.5)), None, Some(number(1.5)), Some(number(0.5))];
    let ranked = apply_scores(results, &scores);
    assert_eq!(names(&ranked), vec!["c", "a", "d"]);
    assert_eq!(float(ranked[0].score), 1.5);
    assert_eq!(float(ranked[1].score), 0.5);
}

#[test]
fn falling_scores_keep_their_order() {
    let results = vec![result("a", 1.0), result("b", 1.0), result("c", 1.0)];
    let scores = vec![Some(number(0.0)), Some(number(-0.0)), Some(number(-1.0))];
    assert_eq!(names(&apply_scores(results, &scores)), vec!["a", "b", "c"]);
}

fn page(url: &str, score: f64) -> SearchResult<metasearch::engine::EngineSearchResult> {
    SearchResult {
        result: metasearch::engine::EngineSearchResult {
            url: url.to_string(),
            title: "some title".to_string(),
            description: "one two three".to_string(),
        },
        engines: BTreeSet::from([Engine::Google, Engine::Other(2)]),
        score: number(score),
    }
}

#[test]
fn rerank_hands_out_the_signals() {
    let data = RerankData::new(&vec!["spam.com"], &vec![]);
    let config = RerankConfig::default();
    let mut results =
        vec![page("https://a.com/", 2.0), page("https://spam.com/", 8.0), page("https://b.com/", 4.0)];
    // The negated score turns the order round.
    rerank(&data, &config, "title", &mut results, |_: &RerankConfig, signals: &Signals| {
        assert_eq!(float(signals.max_upstream), 8.0);
        assert!(signals.vocabulary.is_some());
        assert_eq!(signals.relevance, vec![WordMatch { trigrams: 3, in_title: 3, in_description: 0 }]);
        number(-float(signals.upstream))
    });
    assert_eq!(results.len(), 2);
    assert_eq!(results[0].result.url, "https://a.com/");
    assert_eq!(float(results[0].score), -2.0);
    assert_eq!(results[1].result.url, "https://b.com/");
    assert_eq!(results[1].engines.len(), 2);
}

#[test]
fn rerank_without_scores_only_removes_blocked_results() {
    let data = RerankData::new(&vec!["spam.com"], &vec![]);
    let config = RerankConfig::default();
    let mut results = vec![
        page("https://a.com/", -2.0),
        page("https://spam.com/page", 0.0),
        page("https://b.com/", 0.0),
    ];
    let expected = vec![results[0].clone(), results[2].clone()];
    rerank(&data, &config, "q", &mut results, |_: &RerankConfig, _: &Signals| number(1.0));
    assert_eq!(results, expected);
    let mut none = vec![];
    rerank(&data, &config, "q", &mut none, |_: &RerankConfig, _: &Signals| number(1.0));
    assert!(none.is_empty());
}

#[test]
fn a_blocked_result_is_removed_whatever_its_score() {
    let data = RerankData::new(&vec!["spam.com"], &vec![]);
    let config = RerankConfig::default();
    for score in [0.0, -1.0, 5.0, f64::NAN] {
        let mut results = vec![page("https://spam.com/page", score)];
        rerank(&data, &config, "q", &mut results, |_: &RerankConfig, _: &Signals| number(1.0));
        assert!(results.is_empty(), "{score}");
        assert!(remove_blocked(&data, vec![page("https://spam.com/page", score)]).is_empty());
    }
}
