use metasearch::config::engines::{
    EngineConfig, EnginesConfig, PartialDefaultableEngineConfig, PartialEngineConfig,
    PartialEnginesConfig,
};
use metasearch::config::urls::{PartialUrlsConfig, UrlsConfig};
use metasearch::config::weights::{
    L2FeatureWeights, PartialL2FeatureWeights, PartialRerankConfig, PartialUrlSignalWeights,
    RerankConfig, UrlSignalWeights,
};
use metasearch::config::{
    Config, HostAndPath, ImageProxyConfig, ImageSearchConfig, PartialConfig,
    PartialImageProxyConfig, PartialImageSearchConfig, PartialUiConfig, SocketAddress,
};
use metasearch::engine::Engine;
use metasearch::number::Binary64;

fn number(x: f64) -> Binary64 {
    Binary64 { bits: x.to_bits() }
}

fn float(n: Binary64) -> f64 {
    f64::from_bits(n.bits)
}

fn nothing() -> PartialConfig {
    PartialConfig {
        bind: None,
        api: None,
        ui: None,
        image_search: None,
        engines: None,
        urls: None,
        rerank: None,
    }
}

fn text(s: &str) -> String {
    s.to_string()
}

// --- Hosts and paths ---

#[test]
fn splits_at_the_first_slash() {
    let parts = HostAndPath::new("minecraft.fandom.com/wiki/Creeper");
    assert_eq!(parts.host, "minecraft.fandom.com");
    assert_eq!(parts.path, "wiki/Creeper");
}

#[test]
fn a_host_alone_has_an_empty_path() {
    let parts = HostAndPath::new("example.com");
    assert_eq!(parts, HostAndPath { host: text("example.com"), path: String::new() });
    assert_eq!(HostAndPath::new(""), HostAndPath { host: String::new(), path: String::new() });
    assert_eq!(HostAndPath::new("/a").host, "");
    assert_eq!(parts.clone(), parts);
}

// --- Defaults ---

#[test]
fn default_config_values() {
    let config = Config::default();
    assert_eq!(config.bind, SocketAddress::V4 { octets: [0, 0, 0, 0], port: 28019 });
    assert!(!config.api);
    assert_eq!(config.ui.site_name, "metasearch");
    assert!(config.ui.show_settings_link);
    assert!(config.ui.show_autocomplete);
    assert!(!config.ui.show_engine_list_separator);
    assert!(!config.ui.show_version_info);
    assert_eq!(config.ui.stylesheet_url, "");
    assert_eq!(config.ui.stylesheet_str, "");
    assert_eq!(config.ui.favicon_url, "");
    assert!(!config.image_search.enabled);
    assert!(config.image_search.show_engines);
    assert!(config.image_search.proxy.enabled);
    assert_eq!(config.image_search.proxy.max_download_size, 10_000_000);
    assert_eq!(
        config.urls.replace,
        vec![(HostAndPath::new("minecraft.fandom.com/wiki/"), HostAndPath::new("minecraft.wiki/w/"))],
    );
    assert!(config.urls.weight.is_empty());
    assert!(config.rerank.enabled);
}

#[test]
fn default_rerank_weights() {
    let rerank = RerankConfig::default();
    assert_eq!(float(rerank.alpha), 0.50);
    assert_eq!(float(rerank.beta), 0.30);
    assert_eq!(float(rerank.gamma), 0.20);
    assert_eq!(float(rerank.delta), 0.90);
    assert_eq!(rerank.blocklist_path, "res/blocked_domains_slim.txt");
    assert_eq!(rerank.reputation_path, "res/domain_reputation.toml");
    let l2 = L2FeatureWeights::default();
    assert_eq!(float(l2.capitalized_word_ratio), 0.20);
    assert_eq!(float(l2.unique_word_ratio), 0.20);
    assert_eq!(float(l2.technical_term_density), 0.20);
    assert_eq!(float(l2.avg_word_length), 0.20);
    assert_eq!(float(l2.char_per_word), 0.20);
    let url = UrlSignalWeights::default();
    assert_eq!(float(url.url_depth), 0.05);
    assert_eq!(float(url.url_slug_word_count), 0.10);
    assert_eq!(float(url.is_docs_path), 0.25);
    assert_eq!(float(url.is_forum_path), 0.15);
    assert_eq!(float(url.is_institutional_tld), 0.15);
    assert_eq!(float(url.domain_token_count), -0.10);
    assert_eq!(float(url.has_subdomain), 0.10);
    assert_eq!(float(url.is_commercial_pattern), -0.20);
}

#[test]
fn default_engines() {
    let engines = EnginesConfig::default();
    let expected = [
        (Engine::Google, true, 1.05),
        (Engine::Bing, true, 1.0),
        (Engine::Brave, true, 1.25),
        (Engine::Marginalia, true, 0.15),
        (Engine::GoogleScholar, false, 0.50),
        (Engine::RightDao, false, 0.10),
        (Engine::Stract, false, 0.15),
        (Engine::Yep, false, 0.10),
        (Engine::Numbat, true, 10.0),
        (Engine::Fend, false, 10.0),
        (Engine::Mdn, true, 1.0),
        (Engine::Other(7), true, 1.0),
    ];
    for (engine, enabled, weight) in expected {
        let config = engines.get(engine);
        assert_eq!(config.enabled, enabled, "{engine:?}");
        assert_eq!(float(config.weight), weight, "{engine:?}");
    }
}

#[test]
fn default_engine_extras() {
    let engines = EnginesConfig::default();
    let mdn = &engines.get(Engine::Mdn).extra;
    assert_eq!(mdn.len(), 1);
    assert_eq!(mdn.get("max_sections").and_then(|v| v.as_integer()), Some(1));
    let marginalia = &engines.get(Engine::Marginalia).extra;
    assert_eq!(marginalia.len(), 1);
    let args = marginalia.get("args").and_then(|v| v.as_table()).unwrap();
    assert_eq!(args.len(), 3);
    assert_eq!(args.get("profile").and_then(|v| v.as_str()), Some("corpo"));
    assert_eq!(args.get("js").and_then(|v| v.as_str()), Some("default"));
    assert_eq!(args.get("adtech").and_then(|v| v.as_str()), Some("default"));
    assert!(engines.get(Engine::Google).extra.is_empty());
}

// --- Overlays ---

#[test]
fn empty_overlay_changes_nothing() {
    let mut config = Config::default();
    config.overlay(nothing());
    assert_eq!(config.bind, Config::default().bind);
    assert_eq!(config.ui.site_name, "metasearch");
    assert_eq!(config.urls.replace, Config::default().urls.replace);
    assert_eq!(float(config.engines.get(Engine::Brave).weight), 1.25);
}

#[test]
fn given_values_win() {
    let mut partial = nothing();
    partial.bind = Some(SocketAddress::V4 { octets: [127, 0, 0, 1], port: 80 });
    partial.api = Some(true);
    partial.ui = Some(PartialUiConfig {
        site_name: Some(text("search")),
        show_settings_link: Some(false),
        show_version_info: Some(true),
        ..Default::default()
    });
    partial.image_search = Some(PartialImageSearchConfig {
        enabled: Some(true),
        show_engines: None,
        proxy: Some(PartialImageProxyConfig { enabled: None, max_download_size: Some(5) }),
    });
    partial.rerank = Some(PartialRerankConfig {
        alpha: Some(number(0.7)),
        reputation_path: Some(text("rep.toml")),
        l2_weights: Some(PartialL2FeatureWeights {
            char_per_word: Some(number(0.4)),
            ..Default::default()
        }),
        url_signal_weights: Some(PartialUrlSignalWeights {
            is_docs_path: Some(number(0.5)),
            ..Default::default()
        }),
        ..Default::default()
    });
    let mut config = Config::default();
    config.overlay(partial);
    assert_eq!(config.bind, SocketAddress::V4 { octets: [127, 0, 0, 1], port: 80 });
    assert!(config.api);
    assert_eq!(config.ui.site_name, "search");
    assert!(!config.ui.show_settings_link);
    assert!(config.ui.show_version_info);
    assert!(config.ui.show_autocomplete);
    assert!(config.image_search.enabled);
    assert!(config.image_search.show_engines);
    assert!(config.image_search.proxy.enabled);
    assert_eq!(config.image_search.proxy.max_download_size, 5);
    assert_eq!(float(config.rerank.alpha), 0.7);
    assert_eq!(float(config.rerank.beta), 0.30);
    assert_eq!(config.rerank.reputation_path, "rep.toml");
    assert_eq!(config.rerank.blocklist_path, "res/blocked_domains_slim.txt");
    assert_eq!(float(config.rerank.l2_weights.char_per_word), 0.4);
    assert_eq!(float(config.rerank.l2_weights.avg_word_length), 0.20);
    assert_eq!(float(config.rerank.url_signal_weights.is_docs_path), 0.5);
    assert_eq!(float(config.rerank.url_signal_weights.url_depth), 0.05);
}

#[test]
fn the_same_overlay_twice_is_one() {
    let mut once = ImageSearchConfig {
        enabled: false,
        show_engines: false,
        proxy: ImageProxyConfig { enabled: false, max_download_size: 1 },
    };
    let partial = || PartialImageSearchConfig {
        enabled: Some(true),
        show_engines: None,
        proxy: Some(PartialImageProxyConfig { enabled: Some(true), max_download_size: None }),
    };
    once.overlay(partial());
    let mut twice = once.clone();
    twice.overlay(partial());
    assert!(twice.enabled && !twice.show_engines && twice.proxy.enabled);
    assert_eq!(twice.proxy.max_download_size, once.proxy.max_download_size);
}

#[test]
fn from_given_starts_from_the_default() {
    let mut partial = nothing();
    partial.api = Some(true);
    let config = Config::from_given(partial).unwrap();
    assert!(config.api);
    assert_eq!(config.ui.site_name, "metasearch");
}

#[test]
fn from_given_refuses_an_unknown_removal() {
    let mut partial = nothing();
    partial.urls = Some(PartialUrlsConfig {
        replace: vec![(text("unknown.com/"), String::new())],
        weight: vec![],
    });
    assert!(!Config::default().accepts(&partial));
    assert!(Config::from_given(partial).is_none());
}

// --- Engines ---

#[test]
fn engine_builders() {
    let mut extra = toml::Table::new();
    extra.insert(text("key"), toml::Value::Integer(4));
    let config = EngineConfig::new().with_weight(number(0.5)).disabled().with_extra(extra);
    assert!(!config.enabled);
    assert_eq!(float(config.weight), 0.5);
    assert_eq!(config.extra.get("key").and_then(|v| v.as_integer()), Some(4));
    let copy = config.clone();
    assert_eq!(copy.extra, config.extra);
    assert!(EngineConfig::new().enabled);
    assert_eq!(float(EngineConfig::default().weight), 1.0);
}

#[test]
fn extra_values_are_added_and_replaced() {
    let mut extra = toml::Table::new();
    extra.insert(text("a"), toml::Value::Integer(1));
    extra.insert(text("b"), toml::Value::Integer(2));
    let mut config = EngineConfig::new().with_extra(extra);
    let mut more = toml::Table::new();
    more.insert(text("b"), toml::Value::Integer(3));
    more.insert(text("c"), toml::Value::Integer(4));
    config.overlay(PartialEngineConfig { enabled: None, weight: Some(number(2.0)), extra: more });
    assert!(config.enabled);
    assert_eq!(float(config.weight), 2.0);
    assert_eq!(config.extra.len(), 3);
    assert_eq!(config.extra["a"].as_integer(), Some(1));
    assert_eq!(config.extra["b"].as_integer(), Some(3));
    assert_eq!(config.extra["c"].as_integer(), Some(4));
}

#[test]
fn engines_overlay_mentions_some() {
    let mut engines = EnginesConfig::default();
    engines.overlay(PartialEnginesConfig {
        map: vec![
            (Engine::Google, PartialDefaultableEngineConfig::Boolean(false)),
            (Engine::Other(3), PartialDefaultableEngineConfig::Boolean(false)),
            (
                Engine::GoogleScholar,
                PartialDefaultableEngineConfig::Full(PartialEngineConfig {
                    enabled: Some(true),
                    weight: None,
                    extra: toml::Table::new(),
                }),
            ),
        ],
    });
    assert!(!engines.get(Engine::Google).enabled);
    assert_eq!(float(engines.get(Engine::Google).weight), 1.05);
    assert!(!engines.get(Engine::Other(3)).enabled);
    assert_eq!(float(engines.get(Engine::Other(3)).weight), 1.0);
    assert!(engines.get(Engine::Other(4)).enabled);
    assert!(engines.get(Engine::GoogleScholar).enabled);
    assert_eq!(float(engines.get(Engine::GoogleScholar).weight), 0.50);
    assert!(engines.get(Engine::Bing).enabled);
}

#[test]
fn entries_for_different_engines_commute() {
    let entries = || {
        vec![
            (Engine::Brave, PartialDefaultableEngineConfig::Boolean(false)),
            (Engine::Yep, PartialDefaultableEngineConfig::Boolean(true)),
        ]
    };
    let mut forwards = EnginesConfig::default();
    forwards.overlay(PartialEnginesConfig { map: entries() });
    let mut backwards = EnginesConfig::default();
    backwards.overlay(PartialEnginesConfig { map: entries().into_iter().rev().collect() });
    for engine in [Engine::Brave, Engine::Yep, Engine::Google] {
        assert_eq!(forwards.get(engine).enabled, backwards.get(engine).enabled);
        assert_eq!(forwards.get(engine).weight, backwards.get(engine).weight);
    }
    assert!(!forwards.get(Engine::Brave).enabled);
    assert!(forwards.get(Engine::Yep).enabled);
}

// --- URLs ---

#[test]
fn replacements_are_added_and_removed() {
    let mut urls = Config::default().urls;
    let partial = PartialUrlsConfig {
        replace: vec![
            (text("a.com/x"), text("b.com/y")),
            (text("minecraft.fandom.com/wiki/"), String::new()),
            (text("c.com"), text("d.com")),
        ],
        weight: vec![],
    };
    assert!(urls.accepts(&partial));
    urls.overlay(partial);
    assert_eq!(
        urls.replace,
        vec![
            (HostAndPath::new("a.com/x"), HostAndPath::new("b.com/y")),
            (HostAndPath::new("c.com"), HostAndPath::new("d.com")),
        ],
    );
}

#[test]
fn a_removed_rule_gives_its_position_to_the_last() {
    let rule = |s: &str| (HostAndPath::new(s), HostAndPath::new("to"));
    let mut urls = UrlsConfig { replace: vec![rule("a"), rule("b"), rule("c")], weight: vec![] };
    urls.overlay(PartialUrlsConfig { replace: vec![(text("a"), String::new())], weight: vec![] });
    assert_eq!(urls.replace, vec![rule("c"), rule("b")]);
}

#[test]
fn an_unknown_removal_is_not_accepted() {
    let urls = UrlsConfig { replace: vec![], weight: vec![] };
    let partial = PartialUrlsConfig { replace: vec![(text("a"), String::new())], weight: vec![] };
    assert!(!urls.accepts(&partial));
    // A rule that an earlier entry adds can be taken away.
    let partial = PartialUrlsConfig {
        replace: vec![(text("a"), text("b")), (text("a"), String::new())],
        weight: vec![],
    };
    assert!(urls.accepts(&partial));
}

#[test]
fn longer_places_come_first() {
    let mut urls = UrlsConfig { replace: vec![], weight: vec![(HostAndPath::new("a.com"), number(1.0))] };
    urls.overlay(PartialUrlsConfig {
        replace: vec![],
        weight: vec![
            (text("b.com"), number(2.0)),
            (text("a.com/long/path"), number(3.0)),
            (text("\u{e9}.com"), number(4.0)),
        ],
    });
    let order: Vec<f64> = urls.weight.iter().map(|w| float(w.1)).collect();
    // The accented letter takes two bytes.
    assert_eq!(order, vec![3.0, 4.0, 1.0, 2.0]);
    let before = urls.weight.clone();
    urls.overlay(PartialUrlsConfig::default());
    assert_eq!(urls.weight, before);
}
