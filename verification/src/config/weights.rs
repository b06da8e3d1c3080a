//! The weights of the re-ranking system.

use crate::config::{given_or, overlay_value};
use crate::number::Binary64;
use vstd::prelude::*;

verus! {

/// The bit pattern of -0.20.
pub const MINUS_0_20: u64 = 0xbfc9_9999_9999_999a;

/// The bit pattern of -0.10.
pub const MINUS_0_10: u64 = 0xbfb9_9999_9999_999a;

/// The bit pattern of 0.05.
pub const PLUS_0_05: u64 = 0x3fa9_9999_9999_999a;

/// The bit pattern of 0.10.
pub const PLUS_0_10: u64 = 0x3fb9_9999_9999_999a;

/// The bit pattern of 0.15.
pub const PLUS_0_15: u64 = 0x3fc3_3333_3333_3333;

/// The bit pattern of 0.20.
pub const PLUS_0_20: u64 = 0x3fc9_9999_9999_999a;

/// The bit pattern of 0.25.
pub const PLUS_0_25: u64 = 0x3fd0_0000_0000_0000;

/// The bit pattern of 0.30.
pub const PLUS_0_30: u64 = 0x3fd3_3333_3333_3333;

/// The bit pattern of 0.50.
pub const PLUS_0_50: u64 = 0x3fe0_0000_0000_0000;

/// The bit pattern of 0.90.
pub const PLUS_0_90: u64 = 0x3fec_cccc_cccc_cccd;

/// Weights for Layer 2 vocabulary sophistication features.
/// Each weight controls how much its corresponding feature
/// contributes to the audience sophistication score.
#[derive(Debug, Clone)]
pub struct L2FeatureWeights {
    /// Ratio of capitalized words in the text.
    pub capitalized_word_ratio: Binary64,
    /// Ratio of unique words to total words.
    pub unique_word_ratio: Binary64,
    /// Density of domain-specific technical terms.
    pub technical_term_density: Binary64,
    /// Average number of characters per word.
    pub avg_word_length: Binary64,
    /// Characters per word, on another scale than avg_word_length.
    pub char_per_word: Binary64,
}

/// Partial overlay for `L2FeatureWeights`.
#[derive(Debug, Default)]
pub struct PartialL2FeatureWeights {
    pub capitalized_word_ratio: Option<Binary64>,
    pub unique_word_ratio: Option<Binary64>,
    pub technical_term_density: Option<Binary64>,
    pub avg_word_length: Option<Binary64>,
    pub char_per_word: Option<Binary64>,
}

impl L2FeatureWeights {
    /// The default weights.
    pub open spec fn spec_default() -> L2FeatureWeights {
        L2FeatureWeights {
            capitalized_word_ratio: Binary64 { bits: PLUS_0_20 },
            unique_word_ratio: Binary64 { bits: PLUS_0_20 },
            technical_term_density: Binary64 { bits: PLUS_0_20 },
            avg_word_length: Binary64 { bits: PLUS_0_20 },
            char_per_word: Binary64 { bits: PLUS_0_20 },
        }
    }

    /// The weights with the given ones in place of their own.
    pub open spec fn overlaid(self, partial: PartialL2FeatureWeights) -> L2FeatureWeights {
        L2FeatureWeights {
            capitalized_word_ratio: given_or(
                partial.capitalized_word_ratio,
                self.capitalized_word_ratio,
            ),
            unique_word_ratio: given_or(partial.unique_word_ratio, self.unique_word_ratio),
            technical_term_density: given_or(
                partial.technical_term_density,
                self.technical_term_density,
            ),
            avg_word_length: given_or(partial.avg_word_length, self.avg_word_length),
            char_per_word: given_or(partial.char_per_word, self.char_per_word),
        }
    }

    /// Puts the given weights in place of the ones that were there.
    pub fn overlay(&mut self, partial: PartialL2FeatureWeights)
        ensures
            *final(self) == old(self).overlaid(partial),
    {
        overlay_value(&mut self.capitalized_word_ratio, partial.capitalized_word_ratio);
        overlay_value(&mut self.unique_word_ratio, partial.unique_word_ratio);
        overlay_value(&mut self.technical_term_density, partial.technical_term_density);
        overlay_value(&mut self.avg_word_length, partial.avg_word_length);
        overlay_value(&mut self.char_per_word, partial.char_per_word);
    }
}

impl Default for L2FeatureWeights {
    fn default() -> (r: L2FeatureWeights)
        ensures
            r == L2FeatureWeights::spec_default(),
    {
        L2FeatureWeights {
            capitalized_word_ratio: Binary64 { bits: PLUS_0_20 },
            unique_word_ratio: Binary64 { bits: PLUS_0_20 },
            technical_term_density: Binary64 { bits: PLUS_0_20 },
            avg_word_length: Binary64 { bits: PLUS_0_20 },
            char_per_word: Binary64 { bits: PLUS_0_20 },
        }
    }
}

/// Weights for URL structure signals used in Layer 1 scoring.
/// Each weight controls how much its corresponding URL signal
/// contributes to the source identity score.
#[derive(Debug, Clone)]
pub struct UrlSignalWeights {
    /// Penalty based on URL path depth.
    pub url_depth: Binary64,
    /// Weight for word count in the URL slug.
    pub url_slug_word_count: Binary64,
    /// Boost for paths that look like documentation.
    pub is_docs_path: Binary64,
    /// Boost for paths that look like forums or Q&A.
    pub is_forum_path: Binary64,
    /// Boost for institutional TLDs (.edu, .gov, .org, .mil).
    pub is_institutional_tld: Binary64,
    /// Penalty for domains with many tokens (long domain names).
    pub domain_token_count: Binary64,
    /// Weight for presence of a subdomain.
    pub has_subdomain: Binary64,
    /// Penalty for commercial URL patterns.
    pub is_commercial_pattern: Binary64,
}

/// Partial overlay for `UrlSignalWeights`.
#[derive(Debug, Default)]
pub struct PartialUrlSignalWeights {
    pub url_depth: Option<Binary64>,
    pub url_slug_word_count: Option<Binary64>,
    pub is_docs_path: Option<Binary64>,
    pub is_forum_path: Option<Binary64>,
    pub is_institutional_tld: Option<Binary64>,
    pub domain_token_count: Option<Binary64>,
    pub has_subdomain: Option<Binary64>,
    pub is_commercial_pattern: Option<Binary64>,
}

impl UrlSignalWeights {
    /// The default weights.
    pub open spec fn spec_default() -> UrlSignalWeights {
        UrlSignalWeights {
            url_depth: Binary64 { bits: PLUS_0_05 },
            url_slug_word_count: Binary64 { bits: PLUS_0_10 },
            is_docs_path: Binary64 { bits: PLUS_0_25 },
            is_forum_path: Binary64 { bits: PLUS_0_15 },
            is_institutional_tld: Binary64 { bits: PLUS_0_15 },
            domain_token_count: Binary64 { bits: MINUS_0_10 },
            has_subdomain: Binary64 { bits: PLUS_0_10 },
            is_commercial_pattern: Binary64 { bits: MINUS_0_20 },
        }
    }

    /// The weights with the given ones in place of their own.
    pub open spec fn overlaid(self, partial: PartialUrlSignalWeights) -> UrlSignalWeights {
        UrlSignalWeights {
            url_depth: given_or(partial.url_depth, self.url_depth),
            url_slug_word_count: given_or(partial.url_slug_word_count, self.url_slug_word_count),
            is_docs_path: given_or(partial.is_docs_path, self.is_docs_path),
            is_forum_path: given_or(partial.is_forum_path, self.is_forum_path),
            is_institutional_tld: given_or(partial.is_institutional_tld, self.is_institutional_tld),
            domain_token_count: given_or(partial.domain_token_count, self.domain_token_count),
            has_subdomain: given_or(partial.has_subdomain, self.has_subdomain),
            is_commercial_pattern: given_or(
                partial.is_commercial_pattern,
                self.is_commercial_pattern,
            ),
        }
    }

    /// Puts the given weights in place of the ones that were there.
    pub fn overlay(&mut self, partial: PartialUrlSignalWeights)
        ensures
            *final(self) == old(self).overlaid(partial),
    {
        overlay_value(&mut self.url_depth, partial.url_depth);
        overlay_value(&mut self.url_slug_word_count, partial.url_slug_word_count);
        overlay_value(&mut self.is_docs_path, partial.is_docs_path);
        overlay_value(&mut self.is_forum_path, partial.is_forum_path);
        overlay_value(&mut self.is_institutional_tld, partial.is_institutional_tld);
        overlay_value(&mut self.domain_token_count, partial.domain_token_count);
        overlay_value(&mut self.has_subdomain, partial.has_subdomain);
        overlay_value(&mut self.is_commercial_pattern, partial.is_commercial_pattern);
    }
}

impl Default for UrlSignalWeights {
    fn default() -> (r: UrlSignalWeights)
        ensures
            r == UrlSignalWeights::spec_default(),
    {
        UrlSignalWeights {
            url_depth: Binary64 { bits: PLUS_0_05 },
            url_slug_word_count: Binary64 { bits: PLUS_0_10 },
            is_docs_path: Binary64 { bits: PLUS_0_25 },
            is_forum_path: Binary64 { bits: PLUS_0_15 },
            is_institutional_tld: Binary64 { bits: PLUS_0_15 },
            domain_token_count: Binary64 { bits: MINUS_0_10 },
            has_subdomain: Binary64 { bits: PLUS_0_10 },
            is_commercial_pattern: Binary64 { bits: MINUS_0_20 },
        }
    }
}

/// Configuration for the post-merge result re-ranking system.
/// Controls domain reputation scoring (Layer 1) and vocabulary
/// sophistication scoring (Layer 2).
#[derive(Debug, Clone)]
pub struct RerankConfig {
    /// Whether re-ranking is enabled.
    pub enabled: bool,
    /// Weight for the upstream search engine score.
    pub alpha: Binary64,
    /// Weight for Layer 1 (source identity) score.
    pub beta: Binary64,
    /// Weight for Layer 2 (audience sophistication) score.
    pub gamma: Binary64,
    /// Penalty strength for query relevance. 0.0 disables the
    /// penalty, 1.0 makes scoring fully proportional to relevance.
    pub delta: Binary64,
    /// Path to the domain blocklist file.
    pub blocklist_path: String,
    /// Path to the domain reputation TOML file.
    pub reputation_path: String,
    /// Weights for Layer 2 vocabulary features.
    pub l2_weights: L2FeatureWeights,
    /// Weights for URL structure signals.
    pub url_signal_weights: UrlSignalWeights,
}

/// Partial overlay for `RerankConfig`.
#[derive(Debug, Default)]
pub struct PartialRerankConfig {
    pub enabled: Option<bool>,
    pub alpha: Option<Binary64>,
    pub beta: Option<Binary64>,
    pub gamma: Option<Binary64>,
    pub delta: Option<Binary64>,
    pub blocklist_path: Option<String>,
    pub reputation_path: Option<String>,
    pub l2_weights: Option<PartialL2FeatureWeights>,
    pub url_signal_weights: Option<PartialUrlSignalWeights>,
}

impl RerankConfig {
    /// The configuration with the given values in place of its own.
    pub open spec fn overlaid(self, partial: PartialRerankConfig) -> RerankConfig {
        RerankConfig {
            enabled: given_or(partial.enabled, self.enabled),
            alpha: given_or(partial.alpha, self.alpha),
            beta: given_or(partial.beta, self.beta),
            gamma: given_or(partial.gamma, self.gamma),
            delta: given_or(partial.delta, self.delta),
            blocklist_path: given_or(partial.blocklist_path, self.blocklist_path),
            reputation_path: given_or(partial.reputation_path, self.reputation_path),
            l2_weights: match partial.l2_weights {
                Some(weights) => self.l2_weights.overlaid(weights),
                None => self.l2_weights,
            },
            url_signal_weights: match partial.url_signal_weights {
                Some(weights) => self.url_signal_weights.overlaid(weights),
                None => self.url_signal_weights,
            },
        }
    }

    /// Whether this is the default configuration.
    pub open spec fn is_default(self) -> bool {
        &&& self.enabled
        &&& self.alpha.bits == PLUS_0_50
        &&& self.beta.bits == PLUS_0_30
        &&& self.gamma.bits == PLUS_0_20
        &&& self.delta.bits == PLUS_0_90
        &&& self.blocklist_path@ == "res/blocked_domains_slim.txt"@
        &&& self.reputation_path@ == "res/domain_reputation.toml"@
        &&& self.l2_weights == L2FeatureWeights::spec_default()
        &&& self.url_signal_weights == UrlSignalWeights::spec_default()
    }

    /// Puts the given values in place of the configuration's own.
    pub fn overlay(&mut self, partial: PartialRerankConfig)
        ensures
            *final(self) == old(self).overlaid(partial),
    {
        overlay_value(&mut self.enabled, partial.enabled);
        overlay_value(&mut self.alpha, partial.alpha);
        overlay_value(&mut self.beta, partial.beta);
        overlay_value(&mut self.gamma, partial.gamma);
        overlay_value(&mut self.delta, partial.delta);
        overlay_value(&mut self.blocklist_path, partial.blocklist_path);
        overlay_value(&mut self.reputation_path, partial.reputation_path);
        if let Some(weights) = partial.l2_weights {
            self.l2_weights.overlay(weights);
        }
        if let Some(weights) = partial.url_signal_weights {
            self.url_signal_weights.overlay(weights);
        }
    }
}

impl Default for RerankConfig {
    fn default() -> (r: RerankConfig)
        ensures
            r.is_default(),
    {
        RerankConfig {
            enabled: true,
            alpha: Binary64 { bits: PLUS_0_50 },
            beta: Binary64 { bits: PLUS_0_30 },
            gamma: Binary64 { bits: PLUS_0_20 },
            delta: Binary64 { bits: PLUS_0_90 },
            blocklist_path: "res/blocked_domains_slim.txt".to_owned(),
            reputation_path: "res/domain_reputation.toml".to_owned(),
            l2_weights: L2FeatureWeights::default(),
            url_signal_weights: UrlSignalWeights::default(),
        }
    }
}

} // verus!
