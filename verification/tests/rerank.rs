use std::collections::BTreeSet;

use metasearch::config::weights::{L2FeatureWeights, RerankConfig, UrlSignalWeights};
use metasearch::engine::{EngineSearchResult, SearchResult};
use metasearch::number::Binary64;
use metasearch::relevance::{trigram_containment, trigrams, Trigrams, WordMatch};
use metasearch::reputation::RerankData;
use metasearch::rerank::{rerank, Signals};
use metasearch::source_identity::{extract_domain, Identity, UrlSignals};
use metasearch::vocabulary::L2Features;

// The library counts; these formulas weigh the counts.

fn float(n: Binary64) -> f64 {
    f64::from_bits(n.bits)
}

fn number(x: f64) -> Binary64 {
    Binary64 { bits: x.to_bits() }
}

fn truth(b: bool) -> f64 {
    if b { 1.0 } else { 0.0 }
}

fn normalize(value: f64, min: f64, max: f64) -> f64 {
    ((value - min) / (max - min)).clamp(0.0, 1.0)
}

fn url_signal_score(signals: &UrlSignals, weights: &UrlSignalWeights) -> f64 {
    let pairs = [
        ((signals.url_depth as f64 / 5.0).clamp(0.0, 1.0), float(weights.url_depth)),
        (
            (signals.url_slug_word_count as f64 / 8.0).clamp(0.0, 1.0),
            float(weights.url_slug_word_count),
        ),
        (truth(signals.is_docs_path), float(weights.is_docs_path)),
        (truth(signals.is_forum_path), float(weights.is_forum_path)),
        (truth(signals.is_institutional_tld), float(weights.is_institutional_tld)),
        (
            (signals.domain_token_count as f64 / 5.0).clamp(0.0, 1.0),
            float(weights.domain_token_count),
        ),
        (truth(signals.has_subdomain), float(weights.has_subdomain)),
        (truth(signals.is_commercial_pattern), float(weights.is_commercial_pattern)),
    ];
    let raw: f64 = pairs.iter().map(|(signal, weight)| signal * weight).sum();
    let max_possible: f64 = pairs.iter().map(|(_, weight)| weight.abs()).sum();
    if max_possible > 0.0 {
        (raw / max_possible).clamp(-0.5, 0.5)
    } else {
        0.0
    }
}

fn identity_score(identity: &Identity, weights: &UrlSignalWeights) -> f64 {
    match identity {
        Identity::Neutral => 0.0,
        Identity::Known { weight, signals } => {
            (float(*weight) - 1.0).clamp(-0.5, 1.0) + url_signal_score(signals, weights)
        }
    }
}

fn score_l1(data: &RerankData, url: &str, weights: &UrlSignalWeights) -> Option<f64> {
    data.score_l1(url).map(|identity| identity_score(&identity, weights))
}

fn vocabulary_score(features: &Option<L2Features>, weights: &L2FeatureWeights) -> f64 {
    let Some(features) = features else {
        return 0.5;
    };
    let total = features.words as f64;
    let cap_ratio = features.capitalized as f64 / total;
    let avg_len = features.chars as f64 / total;
    let score = normalize(cap_ratio, 0.0, 0.45) * float(weights.capitalized_word_ratio)
        + normalize(features.unique as f64 / total, 0.40, 1.0) * float(weights.unique_word_ratio)
        + normalize(features.long as f64 / total, 0.0, 0.50)
            * float(weights.technical_term_density)
        + normalize(avg_len, 3.5, 8.0) * float(weights.avg_word_length)
        + normalize(avg_len, 3.5, 9.0) * float(weights.char_per_word);
    score.clamp(0.0, 1.0)
}

fn score_l2(text: &str, weights: &L2FeatureWeights) -> f64 {
    vocabulary_score(&metasearch::vocabulary::score_l2(text), weights)
}

fn containment(query: &Trigrams, text: &Trigrams) -> f64 {
    let counted = trigram_containment(query, text);
    if counted.total == 0 {
        return 0.0;
    }
    counted.found as f64 / counted.total as f64
}

fn relevance_of(words: &[WordMatch]) -> f64 {
    if words.is_empty() {
        return 1.0;
    }
    let mut total = 0.0;
    for word in words {
        total += 0.7 * (word.in_title as f64 / word.trigrams as f64)
            + 0.3 * (word.in_description as f64 / word.trigrams as f64);
    }
    (total / words.len() as f64).clamp(0.0, 1.0)
}

fn score_relevance(query: &str, title: &str, description: &str) -> f64 {
    relevance_of(&metasearch::relevance::score_relevance(query, title, description))
}

fn combine(config: &RerankConfig, signals: &Signals) -> Binary64 {
    let upstream_norm = float(signals.upstream) / float(signals.max_upstream);
    let base = float(config.alpha) * upstream_norm
        + float(config.beta) * identity_score(&signals.identity, &config.url_signal_weights)
        + float(config.gamma) * vocabulary_score(&signals.vocabulary, &config.l2_weights);
    let delta = float(config.delta);
    number(base * ((1.0 - delta) + delta * relevance_of(&signals.relevance)))
}

fn default_l2_weights() -> L2FeatureWeights {
    L2FeatureWeights::default()
}

fn default_url_weights() -> UrlSignalWeights {
    UrlSignalWeights::default()
}

/// A minimal RerankData with explicit blocklist and reputation.
fn make_rerank_data(blocklist: Vec<&str>, reputation: Vec<(&str, f64)>) -> RerankData {
    let reputation = reputation.into_iter().map(|(domain, x)| (domain, number(x))).collect();
    RerankData::new(&blocklist, &reputation)
}

/// A search result with the given URL, title, description, and score.
fn make_result(
    url: &str,
    title: &str,
    description: &str,
    score: f64,
) -> SearchResult<EngineSearchResult> {
    SearchResult {
        result: EngineSearchResult {
            url: url.to_string(),
            title: title.to_string(),
            description: description.to_string(),
        },
        engines: BTreeSet::new(),
        score: number(score),
    }
}

/// A RerankConfig with the specified weights.
fn make_config(alpha: f64, beta: f64, gamma: f64, delta: f64) -> RerankConfig {
    RerankConfig {
        enabled: true,
        alpha: number(alpha),
        beta: number(beta),
        gamma: number(gamma),
        delta: number(delta),
        blocklist_path: String::new(),
        reputation_path: String::new(),
        l2_weights: default_l2_weights(),
        url_signal_weights: default_url_weights(),
    }
}

// -- Layer 2 tests --

#[test]
fn l2_empty_snippet() {
    let score = score_l2("", &default_l2_weights());
    assert_eq!(score, 0.5, "empty snippet should return neutral 0.5");
}

#[test]
fn l2_short_snippet() {
    let score = score_l2("hi there", &default_l2_weights());
    assert_eq!(score, 0.5, "short snippet should return neutral 0.5");
}

#[test]
fn l2_technical_vs_marketing() {
    let weights = default_l2_weights();

    let technical = score_l2(
        "The TransactionManager implements asynchronous distributed \
         consensus via ConcurrencyControl mechanisms",
        &weights,
    );
    let marketing = score_l2(
        "Buy the best products at amazing prices today",
        &weights,
    );

    assert!(
        technical > marketing,
        "technical snippet ({technical}) should score higher \
         than marketing snippet ({marketing})",
    );
}

// -- Layer 1 tests --

#[test]
fn l1_blocked_domain() {
    let data = make_rerank_data(vec!["spam.com"], vec![]);
    let weights = default_url_weights();
    let result = score_l1(&data, "https://spam.com/page", &weights);
    assert!(result.is_none(), "blocked domain should return None");
}

#[test]
fn l1_pinned_domain() {
    let data = make_rerank_data(vec![], vec![("docs.rs", 2.0)]);
    let weights = default_url_weights();
    let score = score_l1(&data, "https://docs.rs/serde/latest", &weights)
        .expect("pinned domain should not be blocked");

    // pin(2.0) -> modifier of +1.0, plus URL signals.
    assert!(
        score > 0.5,
        "pinned domain should have a high L1 score, got {score}",
    );
}

#[test]
fn l1_unknown_domain() {
    let data = make_rerank_data(vec![], vec![]);
    let weights = default_url_weights();
    let score = score_l1(&data, "https://example.com/page", &weights)
        .expect("unknown domain should not be blocked");

    // Reputation modifier is 0.0. Score should be small, near zero
    // (just URL structure signals).
    assert!(
        score.abs() < 0.6,
        "unknown domain should have near-zero L1, got {score}",
    );
}

#[test]
fn subdomain_walking() {
    let data = make_rerank_data(vec![], vec![("docs.rs", 2.0)]);
    let weight = float(data.get_domain_weight("foo.docs.rs"));
    assert_eq!(
        weight, 2.0,
        "subdomain 'foo.docs.rs' should find 'docs.rs' entry",
    );
}

#[test]
fn toml_overrides_blocklist() {
    let data = make_rerank_data(
        vec!["example.com"],
        vec![("example.com", 1.5)],
    );
    let weight = float(data.get_domain_weight("example.com"));
    assert_eq!(
        weight, 1.5,
        "TOML reputation should override blocklist",
    );
}

// -- Full rerank tests --

#[test]
fn rerank_noop_preserves_order() {
    let data = make_rerank_data(vec![], vec![]);
    let config = make_config(1.0, 0.0, 0.0, 0.0);

    let mut results = vec![
        make_result("https://first.com/a", "first", "first result content here", 3.0),
        make_result("https://second.com/b", "second", "second result content here", 2.0),
        make_result("https://third.com/c", "third", "third result content here", 1.0),
    ];

    rerank(&data, &config, "test query", &mut results, combine);

    assert_eq!(results.len(), 3);
    assert!(
        results[0].result.url.contains("first"),
        "with alpha=1.0 beta=0 gamma=0 delta=0, order should be preserved",
    );
    assert!(
        results[1].result.url.contains("second"),
        "with alpha=1.0 beta=0 gamma=0 delta=0, order should be preserved",
    );
    assert!(
        results[2].result.url.contains("third"),
        "with alpha=1.0 beta=0 gamma=0 delta=0, order should be preserved",
    );
}

#[test]
fn pinned_domain_surfaces() {
    let data = make_rerank_data(vec![], vec![("docs.rs", 2.0)]);
    // Strong beta weight so reputation dominates.
    let config = make_config(0.1, 0.8, 0.1, 0.0);

    // The pinned domain starts at a much lower score.
    let mut results = vec![
        make_result(
            "https://random-site.com/page",
            "random site",
            "some generic content here now",
            10.0,
        ),
        make_result(
            "https://another-site.com/page",
            "another site",
            "another generic content here now",
            9.0,
        ),
        make_result(
            "https://docs.rs/serde/latest",
            "serde docs",
            "Serialization framework for Rust documentation",
            1.0,
        ),
    ];

    rerank(&data, &config, "serde", &mut results, combine);

    assert_eq!(
        results[0].result.url, "https://docs.rs/serde/latest",
        "pinned domain should surface to the top",
    );
}

#[test]
fn blocked_domains_excluded() {
    let data = make_rerank_data(vec!["spam.com", "junk.org"], vec![]);
    let config = make_config(1.0, 0.0, 0.0, 0.0);

    let mut results = vec![
        make_result("https://good.com/page", "good page", "good content right here now", 3.0),
        make_result("https://spam.com/page", "spam page", "spam content right here now", 2.0),
        make_result("https://junk.org/page", "junk page", "junk content right here now", 1.0),
    ];

    rerank(&data, &config, "test query", &mut results, combine);

    assert_eq!(results.len(), 1, "blocked domains should be removed");
    assert!(
        results[0].result.url.contains("good"),
        "only the non-blocked result should remain",
    );
}

// -- Domain extraction tests --

#[test]
fn domain_extraction() {
    assert_eq!(
        extract_domain("https://www.example.com/path"),
        Some("example.com".to_string()),
    );
    assert_eq!(
        extract_domain("https://docs.rs/serde"),
        Some("docs.rs".to_string()),
    );
    assert_eq!(
        extract_domain("https://sub.domain.example.org/"),
        Some("sub.domain.example.org".to_string()),
    );
    assert_eq!(
        extract_domain("not a url"),
        None,
    );
}

// -- URL signal tests --

#[test]
fn url_signal_docs_path() {
    let data = make_rerank_data(vec![], vec![]);
    let weights = default_url_weights();

    let docs_score = score_l1(&data, "https://example.com/docs/api-reference", &weights)
        .unwrap();
    let plain_score = score_l1(&data, "https://example.com/about", &weights)
        .unwrap();

    assert!(
        docs_score > plain_score,
        "URL with /docs/ path ({docs_score}) should score higher \
         than plain URL ({plain_score})",
    );
}

// -- Trigram tests --

#[test]
fn trigrams_basic() {
    let tri = trigrams("abcd");
    assert_eq!(tri.len(), 2);
    assert!(tri.contains(&[b'a', b'b', b'c']));
    assert!(tri.contains(&[b'b', b'c', b'd']));
}

#[test]
fn trigrams_short_string() {
    assert!(trigrams("ab").is_empty(), "strings < 3 bytes should produce no trigrams");
    assert!(trigrams("").is_empty());
}

#[test]
fn trigrams_case_insensitive() {
    let upper = trigrams("ABC");
    let lower = trigrams("abc");
    assert_eq!(upper, lower, "trigrams should be case-insensitive");
}

#[test]
fn trigrams_strip_diacritics() {
    let accented = trigrams("naïve");
    let plain    = trigrams("naive");
    assert_eq!(
        accented, plain,
        "diacritics should be stripped: naïve == naive",
    );
}

#[test]
fn containment_full() {
    let query = trigrams("gigavoxels");
    // Text contains the query verbatim plus extra.
    let text = trigrams("gigavoxels rendering pipeline");
    let sim = containment(&query, &text);
    assert!(
        (sim - 1.0).abs() < f64::EPSILON,
        "all query trigrams present should give 1.0, got {sim}",
    );
}

#[test]
fn containment_disjoint() {
    let query = trigrams("aaa bbb");
    let text = trigrams("xxx yyy");
    let sim = containment(&query, &text);
    assert!(
        sim < f64::EPSILON,
        "disjoint sets should give 0.0, got {sim}",
    );
}

#[test]
fn containment_empty() {
    let query = trigrams("abc");
    let empty = trigrams("");
    assert_eq!(containment(&query, &empty), 0.0);
    assert_eq!(containment(&empty, &query), 0.0);
}

#[test]
fn containment_partial() {
    // "gigapixel" shares gig, iga, xel with "gigavoxels" = 3 of 8.
    let query = trigrams("gigavoxels");
    let text = trigrams("gigapixel");
    let sim = containment(&query, &text);
    assert!(
        sim > 0.3 && sim < 0.5,
        "partial overlap should be between 0.3 and 0.5, got {sim}",
    );
}

// -- Relevance tests --

#[test]
fn relevance_exact_match() {
    let score = score_relevance("gigavoxels", "GigaVoxels", "rendering with gigavoxels");
    assert!(
        score > 0.5,
        "exact match should have high relevance, got {score}",
    );
}

#[test]
fn relevance_typo_variant() {
    // "gigavoxel" vs "gigavoxels" differs by one trailing 's'.
    let score = score_relevance("gigavoxel", "Gigavoxels rendering", "real-time voxel rendering");
    let unrelated = score_relevance("gigavoxel", "Topaz Gigapixel AI", "photo upscaling");
    assert!(
        score > unrelated * 2.0,
        "typo variant ({score}) should score much higher than unrelated ({unrelated})",
    );
}

#[test]
fn relevance_partial_prefix_overlap() {
    // "gigavoxels" and "gigapixel" share the "giga" prefix and
    // "xel" suffix, giving 3/8 query trigrams in the title.
    let score = score_relevance(
        "gigavoxels",
        "Topaz Gigapixel AI",
        "AI image upscaling software for photographers",
    );
    assert!(
        score < 0.35 && score > 0.15,
        "partial prefix overlap should score moderately low, got {score}",
    );
}

#[test]
fn relevance_truly_unrelated() {
    let score = score_relevance(
        "gigavoxels",
        "Best Italian restaurants in Portland",
        "Find amazing pasta and pizza near downtown Portland",
    );
    assert!(
        score < 0.05,
        "completely unrelated result should score near zero, got {score}",
    );
}

#[test]
fn relevance_multiword_compound_form() {
    // "kd tree" should match "KDTree" even though the word boundary
    // differs. "kd" is too short for trigrams and gets skipped, but
    // "tree" trigrams appear in "KDTree".
    let score = score_relevance(
        "kd tree",
        "KDTree — scikit-learn documentation",
        "Efficient nearest neighbor queries using a KD tree",
    );
    assert!(
        score > 0.7,
        "compound form should match well, got {score}",
    );
}

#[test]
fn relevance_multiword_all_terms() {
    // Multi-word query: both substantive words should contribute.
    let both = score_relevance(
        "bevy ecs",
        "Introduction to Bevy ECS",
        "Entity component system for the Bevy game engine",
    );
    let one_missing = score_relevance(
        "bevy ecs",
        "Bevy Engine homepage",
        "A data-driven game engine built in Rust",
    );
    assert!(
        both > one_missing,
        "matching all query words ({both}) should outscore \
         matching only one ({one_missing})",
    );
}

#[test]
fn relevance_short_words_skipped() {
    // A query of all short words should return 1.0 (no penalty).
    let score = score_relevance("I am a", "anything", "anything at all");
    assert_eq!(
        score, 1.0,
        "query of all short words should return 1.0 (no penalty)",
    );
}

#[test]
fn relevance_short_query() {
    let score = score_relevance("ab", "anything", "anything at all");
    assert_eq!(
        score, 1.0,
        "very short query should return 1.0 (no penalty)",
    );
}

// -- Relevance integration test --

#[test]
fn relevance_demotes_unrelated_result() {
    let data = make_rerank_data(vec![], vec![]);
    // Upstream score provides the base, delta penalizes irrelevance.
    let config = make_config(1.0, 0.0, 0.0, 0.9);

    let mut results = vec![
        make_result(
            "https://topaz.com/gigapixel",
            "Topaz Gigapixel AI",
            "AI image upscaling software for photographers",
            10.0,
        ),
        make_result(
            "https://research.example.com/gigavoxels",
            "GigaVoxels: Ray-Guided Streaming",
            "A real-time rendering pipeline for detailed voxel scenes",
            5.0,
        ),
    ];

    rerank(&data, &config, "gigavoxels", &mut results, combine);

    assert_eq!(
        results[0].result.url, "https://research.example.com/gigavoxels",
        "the relevant result should outrank the unrelated one \
         when delta dominates",
    );
}
