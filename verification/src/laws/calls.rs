//! Laws of calls: what the operations return and change.

use crate::config::engines::{
    all_overlaid, partial_entries, EngineConfig, EnginesConfig, PartialEngineConfig,
    PartialEnginesConfig,
};
use crate::config::urls::{
    all_replaced, given_weights, longest_first, replaceable, replacements, rules, weight_entries,
    weights, PartialUrlsConfig, UrlsConfig,
};
use crate::config::weights::{
    L2FeatureWeights, PartialL2FeatureWeights, PartialRerankConfig, PartialUrlSignalWeights,
    RerankConfig, UrlSignalWeights,
};
use crate::config::{
    Config, HostAndPath, ImageProxyConfig, ImageSearchConfig, PartialConfig,
    PartialImageProxyConfig, PartialImageSearchConfig, PartialUiConfig, UiConfig,
};
use crate::data::{
    entry, item, json_document, lookup, read_json, read_toml, table_contents, text_in,
    toml_document, Data, Tree,
};
use crate::engine::{Engine, EngineSearchResult, SearchResult};
use crate::laws::config::is_taken;
use crate::laws::relevance::{telling_before, tells};
use crate::laws::reputation::{action_lists, law_listed_domains_have_the_weight_of_their_action};
use crate::laws::vocabulary::{is_capitalized, law_words_are_counted};
use crate::number::Binary64;
use crate::relevance::{
    code, score_relevance, text_trigrams, trigram_containment, trigrams, Containment, Trigrams,
    WordMatch,
};
use crate::reputation::{
    action_weight, blocked_domains, blocks, reputation_weights, LoadError, RerankData,
};
use crate::rerank::{
    apply_scores, is_reranked, max_score, only_unblocked, ranked, remove_blocked, rerank, rescored,
    signals_of, unblocked, Signals,
};
use crate::source_identity::{
    compute_url_signals, domain_of, extract_domain, extract_domain_from_parsed, identity,
    url_signals, Identity, UrlSignals,
};
use crate::text::{total_len, words, Separator};
use crate::unicode::lowered;
use crate::vocabulary::{score_l2, L2Features};
use crate::web::{parts_of, ParsedUrl};
use vstd::prelude::*;
use vstd::utf8::encode_utf8;

verus! {

// --- Overlays ---

/// An overlay takes each value that is given and leaves each that is not.
pub proof fn law_ui_overlay(partial: PartialUiConfig)
    ensures
        forall|config: &mut UiConfig| #[trigger]
            call_ensures(UiConfig::overlay, (config, partial), ()) ==> {
                &&& is_taken(
                    partial.show_engine_list_separator,
                    config.show_engine_list_separator,
                    final(config).show_engine_list_separator,
                )
                &&& is_taken(
                    partial.show_version_info,
                    config.show_version_info,
                    final(config).show_version_info,
                )
                &&& is_taken(
                    partial.show_settings_link,
                    config.show_settings_link,
                    final(config).show_settings_link,
                )
                &&& is_taken(
                    partial.show_autocomplete,
                    config.show_autocomplete,
                    final(config).show_autocomplete,
                )
                &&& is_taken(partial.site_name, config.site_name, final(config).site_name)
                &&& is_taken(
                    partial.stylesheet_url,
                    config.stylesheet_url,
                    final(config).stylesheet_url,
                )
                &&& is_taken(
                    partial.stylesheet_str,
                    config.stylesheet_str,
                    final(config).stylesheet_str,
                )
                &&& is_taken(partial.favicon_url, config.favicon_url, final(config).favicon_url)
            },
{
}

/// An overlay takes each value that is given and leaves each that is not.
pub proof fn law_image_search_overlay(partial: PartialImageSearchConfig)
    ensures
        forall|config: &mut ImageSearchConfig| #[trigger]
            call_ensures(ImageSearchConfig::overlay, (config, partial), ()) ==> {
                &&& is_taken(partial.enabled, config.enabled, final(config).enabled)
                &&& is_taken(partial.show_engines, config.show_engines, final(config).show_engines)
                &&& partial.proxy is None ==> final(config).proxy == config.proxy
                &&& partial.proxy is Some ==> final(config).proxy == config.proxy.overlaid(
                    partial.proxy->0,
                )
            },
{
}

/// An overlay takes each value that is given and leaves each that is not.
pub proof fn law_image_proxy_overlay(partial: PartialImageProxyConfig)
    ensures
        forall|config: &mut ImageProxyConfig| #[trigger]
            call_ensures(ImageProxyConfig::overlay, (config, partial), ()) ==> {
                &&& is_taken(partial.enabled, config.enabled, final(config).enabled)
                &&& is_taken(
                    partial.max_download_size,
                    config.max_download_size,
                    final(config).max_download_size,
                )
            },
{
}

/// An overlay takes each value that is given and leaves each that is not.
pub proof fn law_l2_weight_overlay(partial: PartialL2FeatureWeights)
    ensures
        forall|config: &mut L2FeatureWeights| #[trigger]
            call_ensures(L2FeatureWeights::overlay, (config, partial), ()) ==> {
                &&& is_taken(
                    partial.capitalized_word_ratio,
                    config.capitalized_word_ratio,
                    final(config).capitalized_word_ratio,
                )
                &&& is_taken(
                    partial.unique_word_ratio,
                    config.unique_word_ratio,
                    final(config).unique_word_ratio,
                )
                &&& is_taken(
                    partial.technical_term_density,
                    config.technical_term_density,
                    final(config).technical_term_density,
                )
                &&& is_taken(
                    partial.avg_word_length,
                    config.avg_word_length,
                    final(config).avg_word_length,
                )
                &&& is_taken(
                    partial.char_per_word,
                    config.char_per_word,
                    final(config).char_per_word,
                )
            },
{
}

/// An overlay takes each value that is given and leaves each that is not.
pub proof fn law_url_signal_weight_overlay(partial: PartialUrlSignalWeights)
    ensures
        forall|config: &mut UrlSignalWeights| #[trigger]
            call_ensures(UrlSignalWeights::overlay, (config, partial), ()) ==> {
                &&& is_taken(partial.url_depth, config.url_depth, final(config).url_depth)
                &&& is_taken(
                    partial.url_slug_word_count,
                    config.url_slug_word_count,
                    final(config).url_slug_word_count,
                )
                &&& is_taken(partial.is_docs_path, config.is_docs_path, final(config).is_docs_path)
                &&& is_taken(
                    partial.is_forum_path,
                    config.is_forum_path,
                    final(config).is_forum_path,
                )
                &&& is_taken(
                    partial.is_institutional_tld,
                    config.is_institutional_tld,
                    final(config).is_institutional_tld,
                )
                &&& is_taken(
                    partial.domain_token_count,
                    config.domain_token_count,
                    final(config).domain_token_count,
                )
                &&& is_taken(
                    partial.has_subdomain,
                    config.has_subdomain,
                    final(config).has_subdomain,
                )
                &&& is_taken(
                    partial.is_commercial_pattern,
                    config.is_commercial_pattern,
                    final(config).is_commercial_pattern,
                )
            },
{
}

/// An overlay takes each value that is given and leaves each that is not.
pub proof fn law_rerank_overlay(partial: PartialRerankConfig)
    ensures
        forall|config: &mut RerankConfig| #[trigger]
            call_ensures(RerankConfig::overlay, (config, partial), ()) ==> {
                &&& is_taken(partial.enabled, config.enabled, final(config).enabled)
                &&& is_taken(partial.alpha, config.alpha, final(config).alpha)
                &&& is_taken(partial.beta, config.beta, final(config).beta)
                &&& is_taken(partial.gamma, config.gamma, final(config).gamma)
                &&& is_taken(partial.delta, config.delta, final(config).delta)
                &&& is_taken(
                    partial.blocklist_path,
                    config.blocklist_path,
                    final(config).blocklist_path,
                )
                &&& is_taken(
                    partial.reputation_path,
                    config.reputation_path,
                    final(config).reputation_path,
                )
                &&& partial.l2_weights is None ==> final(config).l2_weights == config.l2_weights
                &&& partial.l2_weights is Some ==> final(config).l2_weights == config.l2_weights.overlaid(
                    partial.l2_weights->0,
                )
                &&& partial.url_signal_weights is None ==> final(config).url_signal_weights == config.url_signal_weights
                &&& partial.url_signal_weights is Some ==> final(config).url_signal_weights == config.url_signal_weights.overlaid(
                    partial.url_signal_weights->0,
                )
            },
{
}

/// Overlaying an engine takes the values that are given and adds the extra ones;
/// overlaying all engines takes the entries in turn, and overlaying URLs takes
/// the replacements in turn, adds the weights and puts them in order.
pub proof fn law_engine_and_url_overlays(
    partial: PartialEngineConfig,
    entries: PartialEnginesConfig,
    urls: PartialUrlsConfig,
)
    ensures
        forall|config: &mut EngineConfig| #[trigger]
            call_ensures(EngineConfig::overlay, (config, partial), ()) ==> {
                &&& final(config).enabled == if partial.enabled is Some {
                    partial.enabled->0
                } else {
                    config.enabled
                }
                &&& final(config).weight == if partial.weight is Some {
                    partial.weight->0
                } else {
                    config.weight
                }
                &&& table_contents(final(config).extra) == table_contents(
                    config.extra,
                ).union_prefer_right(table_contents(partial.extra))
            },
        forall|config: &mut EnginesConfig| #[trigger]
            call_ensures(EnginesConfig::overlay, (config, entries), ()) ==> final(config)@
                == all_overlaid(config@, partial_entries(entries.map@)),
        forall|config: &mut UrlsConfig| #[trigger]
            call_ensures(UrlsConfig::overlay, (config, urls), ()) ==> {
                &&& rules(final(config).replace@) == all_replaced(
                    rules(config.replace@),
                    replacements(urls.replace@),
                )
                &&& weights(final(config).weight@) == longest_first(
                    weights(config.weight@) + given_weights(weight_entries(urls.weight@)),
                )
            },
{
    assert forall|config: &mut EngineConfig| #[trigger]
        call_ensures(EngineConfig::overlay, (config, partial), ()) implies {
        &&& final(config).enabled == if partial.enabled is Some {
            partial.enabled->0
        } else {
            config.enabled
        }
        &&& final(config).weight == if partial.weight is Some {
            partial.weight->0
        } else {
            config.weight
        }
        &&& table_contents(final(config).extra) == table_contents(config.extra).union_prefer_right(
            table_contents(partial.extra),
        )
    } by {
        assert(final(config)@.enabled == final(config).enabled);
        assert(config@.enabled == config.enabled);
    }
}

/// Overlaying the configuration overlays each part that is given and leaves each
/// that is not.
pub proof fn law_config_overlay(partial: PartialConfig)
    ensures
        forall|config: &mut Config| #[trigger]
            call_ensures(Config::overlay, (config, partial), ()) ==> {
                &&& final(config).bind == if partial.bind is Some {
                    partial.bind->0
                } else {
                    config.bind
                }
                &&& final(config).api == if partial.api is Some {
                    partial.api->0
                } else {
                    config.api
                }
                &&& final(config).ui == if partial.ui is Some {
                    config.ui.overlaid(partial.ui->0)
                } else {
                    config.ui
                }
                &&& final(config).image_search == if partial.image_search is Some {
                    config.image_search.overlaid(partial.image_search->0)
                } else {
                    config.image_search
                }
                &&& final(config).rerank == if partial.rerank is Some {
                    config.rerank.overlaid(partial.rerank->0)
                } else {
                    config.rerank
                }
                &&& final(config).engines@ == if partial.engines is Some {
                    all_overlaid(config.engines@, partial_entries(partial.engines->0.map@))
                } else {
                    config.engines@
                }
                &&& partial.urls is None ==> rules(final(config).urls.replace@) == rules(
                    config.urls.replace@,
                )
                &&& partial.urls is Some ==> rules(final(config).urls.replace@) == all_replaced(
                    rules(config.urls.replace@),
                    replacements(partial.urls->0.replace@),
                ) && weights(final(config).urls.weight@) == longest_first(
                    weights(config.urls.weight@) + given_weights(
                        weight_entries(partial.urls->0.weight@),
                    ),
                )
            },
{
}

/// What a configuration file gives is laid over the default.
pub proof fn law_given_configuration(partial: PartialConfig, r: Option<Config>)
    requires
        call_ensures(Config::from_given, (partial,), r),
    ensures
        partial.urls is None ==> r is Some,
        r matches Some(config) ==> {
            &&& partial.bind is Some ==> config.bind == partial.bind->0
            &&& partial.api is Some ==> config.api == partial.api->0
            &&& partial.api is None ==> !config.api
            &&& partial.ui is None ==> config.ui.site_name@ == "metasearch"@
            &&& partial.ui matches Some(ui) ==> {
                &&& ui.site_name is Some ==> config.ui.site_name == ui.site_name->0
                &&& ui.show_autocomplete is Some ==> config.ui.show_autocomplete
                    == ui.show_autocomplete->0
            }
            &&& partial.rerank is None ==> config.rerank.enabled
            &&& partial.rerank matches Some(rerank) ==> {
                &&& rerank.enabled is Some ==> config.rerank.enabled == rerank.enabled->0
                &&& rerank.enabled is None ==> config.rerank.enabled
                &&& rerank.blocklist_path is Some ==> config.rerank.blocklist_path
                    == rerank.blocklist_path->0
            }
            &&& partial.image_search matches Some(search) ==> (search.enabled is Some
                ==> config.image_search.enabled == search.enabled->0)
        },
{
}

/// The builders of an engine's configuration change what they say and nothing
/// else.
pub proof fn law_engine_builders(
    config: EngineConfig,
    weight: Binary64,
    extra: toml::Table,
    weighed: EngineConfig,
    off: EngineConfig,
    extended: EngineConfig,
)
    requires
        call_ensures(EngineConfig::with_weight, (config, weight), weighed),
        call_ensures(EngineConfig::disabled, (config,), off),
        call_ensures(EngineConfig::with_extra, (config, extra), extended),
    ensures
        weighed.weight == weight,
        weighed.enabled == config.enabled,
        table_contents(weighed.extra) == table_contents(config.extra),
        !off.enabled,
        off.weight == config.weight,
        table_contents(off.extra) == table_contents(config.extra),
        table_contents(extended.extra) == table_contents(extra),
        extended.enabled == config.enabled,
        extended.weight == config.weight,
{
    assert(weighed@.enabled == weighed.enabled && off@.enabled == off.enabled);
    assert(extended@.enabled == extended.enabled && config@.enabled == config.enabled);
}

/// An engine's configuration is the one that is kept for it, or the default.
pub proof fn law_engine_lookup(engines: &EnginesConfig, engine: Engine, r: &EngineConfig)
    requires
        call_ensures(EnginesConfig::get, (engines, engine), r),
    ensures
        engines@.contains_key(engine.number()) ==> r@ == engines@[engine.number()],
        !engines@.contains_key(engine.number()) ==> r.enabled && r.weight.bits
            == 0x3ff0_0000_0000_0000 && table_contents(r.extra) == Map::<
            Seq<char>,
            toml::Value,
        >::empty(),
{
    assert(r@.enabled == r.enabled && r@.weight == r.weight);
}

/// A host and a path are parted by the first slash.
pub proof fn law_hosts_and_paths(s: &str, r: HostAndPath)
    requires
        call_ensures(HostAndPath::new, (s,), r),
    ensures
        !r.host@.contains('/'),
        s@.contains('/') ==> s@ == r.host@ + seq!['/'] + r.path@,
        !s@.contains('/') ==> r.host@ == s@ && r.path@.len() == 0,
{
    crate::config::urls::law_place_of_rejoins(s@);
    assert(r@ == (r.host@, r.path@));
}

/// Configuring an engine replaces what it had, and leaves the others; there are
/// none in an empty configuration, and copies hold the same.
pub proof fn law_configured_engines(
    engine: Engine,
    config: EngineConfig,
    empty: EnginesConfig,
    engines: &EnginesConfig,
    copy: EnginesConfig,
    n: u64,
)
    requires
        call_ensures(EnginesConfig::empty, (), empty),
        call_ensures(EnginesConfig::clone, (engines,), copy),
    ensures
        forall|map: &mut EnginesConfig| #[trigger]
            call_ensures(EnginesConfig::insert, (map, engine, config), ()) ==> {
                &&& final(map)@.contains_key(n) <==> n == engine.number() || map@.contains_key(n)
                &&& n == engine.number() ==> final(map)@[n] == config@
                &&& n != engine.number() && map@.contains_key(n) ==> final(map)@[n] == map@[n]
            },
        !empty@.contains_key(n),
        copy@ == engines@,
{
}

/// An overlay is accepted where each replacement that it takes away is there.
pub proof fn law_accepted_overlays(
    config: &Config,
    partial: &PartialConfig,
    r: bool,
    urls: &UrlsConfig,
    entries: &PartialUrlsConfig,
    accepted: bool,
)
    requires
        call_ensures(Config::accepts, (config, partial), r),
        call_ensures(UrlsConfig::accepts, (urls, entries), accepted),
    ensures
        partial.urls is None ==> r,
        partial.urls is Some ==> r == replaceable(
            rules(config.urls.replace@),
            replacements(partial.urls->0.replace@),
        ),
        accepted == replaceable(rules(urls.replace@), replacements(entries.replace@)),
{
}

// --- Documents ---

/// Documents are read as their formats say, and their parts are found by
/// position, key and kind.
pub proof fn law_read_documents(
    text: &str,
    json: Option<Data>,
    toml: Option<Data>,
    data: &Data,
    key: &str,
    value: Option<&Data>,
    i: usize,
    nth: Option<&Data>,
    string: Option<String>,
)
    requires
        call_ensures(read_json, (text,), json),
        call_ensures(read_toml, (text,), toml),
        call_ensures(lookup, (data, key), value),
        call_ensures(item, (data, i), nth),
        call_ensures(text_in, (data,), string),
    ensures
        json is Some <==> json_document(text@) is Some,
        json is Some ==> json_document(text@)->0 == json->0@,
        toml is Some <==> toml_document(text@) is Some,
        toml is Some ==> toml_document(text@)->0 == toml->0@,
        value is Some <==> data@ is Table && entry(data@->Table_0, key@) is Some,
        value is Some ==> entry(data@->Table_0, key@)->0 == value->0@,
        nth is Some <==> data@ is List && i < data@->List_0.len(),
        nth is Some ==> data@->List_0[i as int] == nth->0@,
        string is Some <==> data@ is Text,
        string is Some ==> data@->Text_0 == string->0@,
{
}

// --- Domains ---

/// A reputation document gives each domain the weight of the last known action
/// that lists it, and a blocklist the domains of its lines; loaded ones are
/// counted.
pub proof fn law_read_reputation(
    document: &Data,
    weights_read: vstd::hash_map::StringHashMap<Binary64>,
    text: &str,
    blocked: vstd::hash_set::StringHashSet,
    data: &RerankData,
    blocked_count: usize,
    reputation_count: usize,
    domain: Seq<char>,
    i: int,
)
    requires
        call_ensures(reputation_weights, (document,), weights_read),
        call_ensures(blocked_domains, (text,), blocked),
        call_ensures(RerankData::blocked_count, (data,), blocked_count),
        call_ensures(RerankData::reputation_count, (data,), reputation_count),
        document@ is Table,
    ensures
        weights_read@.contains_key(domain) <==> exists|j: int|
            action_lists(document@->Table_0, j, domain),
        action_lists(document@->Table_0, i, domain) && (forall|j: int|
            i < j < document@->Table_0.len() ==> !#[trigger] action_lists(
                document@->Table_0,
                j,
                domain,
            )) ==> weights_read@[domain] == action_weight(document@->Table_0[i].0)->0,
        blocked@.contains(domain) <==> blocks(text@, domain),
        blocked_count == data.blocklist().len(),
        reputation_count == data.reputation().len(),
{
    law_listed_domains_have_the_weight_of_their_action(document@->Table_0, i, domain);
}

/// A URL that was taken apart is scored by its parts.
pub proof fn law_scored_parts(data: &RerankData, parsed: &ParsedUrl, r: Option<Identity>)
    requires
        call_ensures(RerankData::score_parsed, (data, parsed), r),
    ensures
        r is None <==> (parsed.host matches Some(host) && data.weight(domain_of(host@)).place()
            == 0),
        r is Some && r->0 is Neutral <==> parsed.host is None,
        r matches Some(Identity::Known { weight, signals }) ==> {
            let domain = domain_of(parsed.host->0@);
            &&& weight == data.weight(domain)
            &&& signals@ == url_signals(parsed.path@, domain)
        },
{
}

/// A domain weighs what its reputation says, else zero where it is blocked, else
/// what the domain after its first dot weighs, else one.
pub proof fn law_weight_of_a_domain(data: &RerankData, domain: &str, r: Binary64)
    requires
        call_ensures(RerankData::get_domain_weight, (data, domain), r),
    ensures
        data.reputation().contains_key(domain@) ==> r == data.reputation()[domain@],
        !data.reputation().contains_key(domain@) && data.blocklist().contains(domain@) ==> r.bits
            == 0,
        !data.reputation().contains_key(domain@) && !data.blocklist().contains(domain@)
            && !domain@.contains('.') ==> r.bits == 0x3ff0_0000_0000_0000,
        !data.reputation().contains_key(domain@) && !data.blocklist().contains(domain@)
            && domain@.contains('.') ==> forall|label: Seq<char>, rest: Seq<char>, other: &str, w: Binary64|
            domain@ == #[trigger] (label.push('.') + rest) && !label.contains('.') && other@ == rest
                && #[trigger] call_ensures(RerankData::get_domain_weight, (data, other), w) ==> r == w,
{
    if !data.reputation().contains_key(domain@) && !data.blocklist().contains(domain@)
        && domain@.contains('.') {
        assert forall|label: Seq<char>, rest: Seq<char>, other: &str, w: Binary64|
            domain@ == #[trigger] (label.push('.') + rest) && !label.contains('.') && other@ == rest
                && #[trigger] call_ensures(
                RerankData::get_domain_weight,
                (data, other),
                w,
            ) implies r == w by {
            crate::reputation::law_subdomain_inherits(
                data.reputation(),
                data.blocklist(),
                label,
                rest,
            );
        }
    }
}

/// Loaded data blocks what the lines of the blocklist name, and gives each domain
/// the weight of the last known action that lists it.
pub proof fn law_loaded_data(
    blocklist: Option<&str>,
    reputation: Option<&str>,
    r: Result<RerankData, LoadError>,
    domain: Seq<char>,
    actions: Seq<(Seq<char>, Tree)>,
    i: int,
)
    requires
        call_ensures(RerankData::load, (blocklist, reputation), r),
    ensures
        reputation is None ==> r is Ok,
        reputation is Some ==> (r is Ok <==> toml_document(reputation->0@) is Some),
        r matches Ok(data) ==> {
            &&& blocklist is None ==> !data.blocklist().contains(domain)
            &&& blocklist is Some ==> (data.blocklist().contains(domain) <==> blocks(
                blocklist->0@,
                domain,
            ))
            &&& reputation is None ==> !data.reputation().contains_key(domain)
            &&& reputation is Some && toml_document(reputation->0@) == Some(Tree::Table(actions))
                ==> {
                &&& data.reputation().contains_key(domain) <==> exists|j: int|
                    action_lists(actions, j, domain)
                &&& action_lists(actions, i, domain) && (forall|j: int|
                    i < j < actions.len() ==> !#[trigger] action_lists(actions, j, domain))
                    ==> data.reputation()[domain] == action_weight(actions[i].0)->0
            }
        },
{
    law_listed_domains_have_the_weight_of_their_action(actions, i, domain);
}

/// Data made of lists blocks the domains of the one, and weighs by the last
/// entry of the other.
pub proof fn law_made_data(
    blocklist: &Vec<&str>,
    reputation: &Vec<(&str, Binary64)>,
    r: RerankData,
    domain: Seq<char>,
    i: int,
)
    requires
        call_ensures(RerankData::new, (blocklist, reputation), r),
    ensures
        r.blocklist().contains(domain) <==> exists|j: int|
            0 <= j < blocklist@.len() && (#[trigger] blocklist@[j])@ == domain,
        r.reputation().contains_key(domain) <==> exists|j: int|
            0 <= j < reputation@.len() && (#[trigger] reputation@[j]).0@ == domain,
        0 <= i < reputation@.len() && reputation@[i].0@ == domain && (forall|j: int|
            i < j < reputation@.len() ==> (#[trigger] reputation@[j]).0@ != domain)
            ==> r.reputation()[domain] == reputation@[i].1,
{
    crate::laws::reputation::law_lists_are_read(blocklist@, reputation@, i, domain);
}

/// The domain of a URL is its host without a leading `www.`.
pub proof fn law_extracted_domain(
    url: &str,
    r: Option<String>,
    parsed: &ParsedUrl,
    from_parsed: Option<String>,
)
    requires
        call_ensures(extract_domain, (url,), r),
        call_ensures(extract_domain_from_parsed, (parsed,), from_parsed),
    ensures
        r is Some <==> parts_of(url@) is Some && parts_of(url@)->0.host is Some,
        r is Some ==> r->0@ == domain_of(parts_of(url@)->0.host->0),
        from_parsed is Some <==> parsed.host is Some,
        from_parsed is Some ==> from_parsed->0@ == domain_of(parsed.host->0@),
{
}

/// The signals of a URL are counted in its path and domain, as the fields say.
pub proof fn law_computed_signals(path: &str, domain: &str, r: UrlSignals)
    requires
        call_ensures(compute_url_signals, (path, domain), r),
    ensures
        r.url_depth == Set::new(|i: int| 0 <= i < path@.len() && path@[i] == '/').len(),
        r.domain_token_count == Set::new(
            |i: int| 0 <= i < domain@.len() && (domain@[i] == '.' || domain@[i] == '-'),
        ).len() + 1,
        r.has_subdomain <==> Set::new(|i: int| 0 <= i < domain@.len() && domain@[i] == '.').len()
            >= 2,
        r.url_slug_word_count == url_signals(path@, domain@).url_slug_word_count,
        r.is_docs_path == url_signals(path@, domain@).is_docs_path,
        r.is_forum_path == url_signals(path@, domain@).is_forum_path,
        r.is_institutional_tld == url_signals(path@, domain@).is_institutional_tld,
        r.is_commercial_pattern == url_signals(path@, domain@).is_commercial_pattern,
{
    crate::laws::source_identity::law_signal_counts(path@, domain@);
    assert(r@.url_depth == r.url_depth);
}

/// A source is scored by what its URL says, and excluded where its domain weighs
/// zero.
pub proof fn law_scored_source(data: &RerankData, url: &str, r: Option<Identity>)
    requires
        call_ensures(RerankData::score_l1, (data, url), r),
    ensures
        r is None <==> (parts_of(url@) matches Some(parts) && (parts.host matches Some(host)
            && data.weight(domain_of(host)).place() == 0)),
        r is Some && r->0 is Neutral <==> parts_of(url@) is None || parts_of(url@)->0.host is None,
        r matches Some(Identity::Known { weight, signals }) ==> {
            let parts = parts_of(url@)->0;
            let domain = domain_of(parts.host->0);
            &&& weight == data.weight(domain)
            &&& signals@ == url_signals(parts.path, domain)
        },
{
}

// --- Snippets and queries ---

/// A snippet of three words or more is counted.
pub proof fn law_scored_snippet(text: &str, r: Option<L2Features>)
    requires
        call_ensures(score_l2, (text,), r),
    ensures
        ({
            let list = words(text@, Separator::Space);
            &&& r is Some <==> list.len() >= 3
            &&& r matches Some(features) ==> {
                &&& features.words == list.len()
                &&& features.capitalized == Set::new(|i: int| is_capitalized(list, i)).len()
                &&& features.long == Set::new(
                    |i: int| 0 <= i < list.len() && list[i].len() >= 8,
                ).len()
                &&& features.unique == Set::new(
                    |low: Seq<char>|
                        exists|i: int| 0 <= i < list.len() && lowered(#[trigger] list[i]) == low,
                ).len()
                &&& features.chars == total_len(list)
            }
        }),
{
    law_words_are_counted(text@);
    if let Some(features) = r {
        assert(features@.words == features.words);
    }
}

/// The trigrams of a text are what is asked of them: none below three bytes, as
/// many as counted, and those that are found.
pub proof fn law_asked_trigrams(
    s: &str,
    r: Trigrams,
    trigram: &[u8; 3],
    contained: bool,
    len: usize,
    empty: bool,
)
    requires
        call_ensures(trigrams, (s,), r),
        call_ensures(Trigrams::contains, (&r, trigram), contained),
        call_ensures(Trigrams::len, (&r,), len),
        call_ensures(Trigrams::is_empty, (&r,), empty),
    ensures
        encode_utf8(s@).len() < 3 ==> len == 0 && empty && !contained,
        len == text_trigrams(s@).len(),
        empty <==> len == 0,
        contained <==> text_trigrams(s@).contains(code(trigram@[0], trigram@[1], trigram@[2])),
{
    crate::laws::relevance::law_three_bytes_make_a_trigram(s@);
}

/// Of a query's trigrams, those that a text has are counted.
pub proof fn law_counted_containment(
    query: &str,
    text: &str,
    of_query: Trigrams,
    of_text: Trigrams,
    r: Containment,
)
    requires
        call_ensures(trigrams, (query,), of_query),
        call_ensures(trigrams, (text,), of_text),
        call_ensures(trigram_containment, (&of_query, &of_text), r),
    ensures
        r.total == text_trigrams(query@).len(),
        r.found == text_trigrams(query@).intersect(text_trigrams(text@)).len(),
{
}

/// Each word of a query that has trigrams is counted in its turn, by how many of
/// them the title and the description have.
pub proof fn law_scored_relevance(
    query: &str,
    title: &str,
    description: &str,
    r: Vec<WordMatch>,
    i: int,
)
    requires
        call_ensures(score_relevance, (query, title, description), r),
    ensures
        ({
            let list = words(query@, Separator::Space);
            let sets = list.map_values(|word: Seq<char>| text_trigrams(word));
            &&& r@.len() == telling_before(sets, sets.len() as int)
            &&& 0 <= i < list.len() && text_trigrams(list[i]).len() > 0 ==> {
                let k = telling_before(sets, i) as int;
                &&& 0 <= k < r@.len()
                &&& r@[k].trigrams == text_trigrams(list[i]).len()
                &&& r@[k].in_title == text_trigrams(list[i]).intersect(
                    text_trigrams(title@),
                ).len()
                &&& r@[k].in_description == text_trigrams(list[i]).intersect(
                    text_trigrams(description@),
                ).len()
            }
        }),
{
    let list = words(query@, Separator::Space);
    let sets = list.map_values(|word: Seq<char>| text_trigrams(word));
    assert(sets =~= crate::relevance::query_words(query@));
    crate::laws::relevance::law_every_telling_word_is_counted(
        sets,
        text_trigrams(title@),
        text_trigrams(description@),
    );
    let counted = crate::relevance::counts(r@);
    assert(counted.len() == r@.len());
    if 0 <= i < list.len() && text_trigrams(list[i]).len() > 0 {
        crate::laws::relevance::law_three_bytes_make_a_trigram(list[i]);
        if !tells(sets, i) {
            assert(sets[i] =~= Set::empty());
        }
        let k = telling_before(sets, i) as int;
        assert(tells(sets, i));
        assert(counted[k] == r@[k]@);
    }
}

// --- Ranking ---

/// The signals of a result are those of its score, its URL, its description and
/// its title; there are none where its source is excluded.
pub proof fn law_gathered_signals(
    data: &RerankData,
    query: &str,
    max: Binary64,
    result: &SearchResult<EngineSearchResult>,
    r: Option<Signals>,
    i: int,
)
    requires
        call_ensures(signals_of, (data, query, max, result), r),
    ensures
        r is None <==> identity(data, parts_of(result.result.url@)) is None,
        r matches Some(signals) ==> {
            let list = words(query@, Separator::Space);
            let sets = list.map_values(|word: Seq<char>| text_trigrams(word));
            &&& signals.upstream == result.score
            &&& signals.max_upstream == max
            &&& identity(data, parts_of(result.result.url@)) == Some(signals.identity@)
            &&& signals.vocabulary is Some <==> words(
                result.result.description@,
                Separator::Space,
            ).len() >= 3
            &&& signals.vocabulary matches Some(features) ==> features.words == words(
                result.result.description@,
                Separator::Space,
            ).len()
            &&& signals.relevance@.len() == telling_before(sets, sets.len() as int)
            &&& 0 <= i < list.len() && text_trigrams(list[i]).len() > 0 ==> {
                let m = signals.relevance@[telling_before(sets, i) as int];
                &&& m.trigrams == text_trigrams(list[i]).len()
                &&& m.in_title == text_trigrams(list[i]).intersect(
                    text_trigrams(result.result.title@),
                ).len()
                &&& m.in_description == text_trigrams(list[i]).intersect(
                    text_trigrams(result.result.description@),
                ).len()
            }
        },
{
    if let Some(signals) = r {
        crate::laws::rerank::law_signals_of_the_query(
            signals,
            data,
            query@,
            max,
            *result,
            i,
        );
        crate::laws::rerank::law_signals_of_the_description(signals, data, query@, max, *result);
    }
}

/// Removing blocked results and applying scores do that and nothing else.
pub proof fn law_applied_scores(
    data: &RerankData,
    all: Vec<SearchResult<EngineSearchResult>>,
    kept: Vec<SearchResult<EngineSearchResult>>,
    scores: &Vec<Option<Binary64>>,
    scored: Vec<SearchResult<EngineSearchResult>>,
    result: SearchResult<EngineSearchResult>,
)
    requires
        call_ensures(remove_blocked, (data, all), kept),
        scores@.len() == all@.len(),
        call_ensures(apply_scores::<EngineSearchResult>, (all, scores), scored),
    ensures
        kept@.contains(result) <==> all@.contains(result) && identity(
            data,
            parts_of(result.result.url@),
        ) is Some,
        scored@.contains(result) <==> exists|i: int|
            0 <= i < all@.len() && (#[trigger] scores@[i]) == Some(result.score) && result.result
                == all@[i].result && result.engines == all@[i].engines,
        forall|i: int, j: int|
            0 <= i < j < scored@.len() ==> (#[trigger] scored@[i]).score.place() >= (
            #[trigger] scored@[j]).score.place(),
{
    broadcast use vstd::seq_lib::group_to_multiset_ensures;

    let keeps = |r: SearchResult<EngineSearchResult>|
        crate::rerank::source(data, r.result.url@) is Some;
    assert(kept@ == all@.filter(keeps));
    if kept@.contains(result) {
        all@.lemma_filter_contains_rev(keeps, result);
        let k = choose|k: int| 0 <= k < kept@.len() && kept@[k] == result;
        all@.lemma_filter_pred(keeps, k);
    }
    if all@.contains(result) && identity(data, parts_of(result.result.url@)) is Some {
        let k = choose|k: int| 0 <= k < all@.len() && all@[k] == result;
        all@.lemma_filter_contains(keeps, k);
    }
    let left = rescored(all@, scores@);
    crate::rerank::law_ranked_is_sorted(left);
    crate::rerank::law_rescored_are_the_scored(all@, scores@, result);
    assert(scored@ == ranked(left));
    if scored@.contains(result) {
        assert(scored@.to_multiset().count(result) > 0);
        assert(left.contains(result));
        let i = choose|i: int|
            0 <= i < all@.len() && (#[trigger] scores@[i]) == Some(result.score) && result
                == crate::rerank::with_score(all@[i], result.score);
        assert(scores@[i] == Some(result.score));
    }
    if exists|i: int|
        0 <= i < all@.len() && (#[trigger] scores@[i]) == Some(result.score) && result.result
            == all@[i].result && result.engines == all@[i].engines {
        let i = choose|i: int|
            0 <= i < all@.len() && (#[trigger] scores@[i]) == Some(result.score) && result.result
                == all@[i].result && result.engines == all@[i].engines;
        assert(result == crate::rerank::with_score(all@[i], result.score));
        assert(left.contains(result));
        assert(left.to_multiset().count(result) > 0);
    }
}

/// Whether exactly the results whose source is not excluded are left, each with
/// the score that the scoring gave for what describes it, the greater score
/// first; where no score was above zero, with the score it had.
pub open spec fn is_ranking<F: Fn(&RerankConfig, &Signals) -> Binary64>(
    combine: F,
    config: &RerankConfig,
    data: &RerankData,
    query: Seq<char>,
    before: Seq<SearchResult<EngineSearchResult>>,
    after: Seq<SearchResult<EngineSearchResult>>,
) -> bool {
    &&& forall|k: int|
        0 <= k < after.len() ==> identity(
            data,
            parts_of((#[trigger] after[k]).result.url@),
        ) is Some
    &&& forall|i: int|
        0 <= i < before.len() && identity(
            data,
            parts_of((#[trigger] before[i]).result.url@),
        ) is Some ==> has_result(after, before[i])
    &&& max_score(before).place() == 0 ==> after == unblocked(data, before)
    &&& max_score(before).place() != 0 ==> forall|k: int, l: int|
        0 <= k < l < after.len() ==> (#[trigger] after[k]).score.place() >= (
        #[trigger] after[l]).score.place()
    &&& max_score(before).place() != 0 ==> forall|k: int|
        0 <= k < after.len() ==> is_scored(
            combine,
            config,
            data,
            query,
            before,
            #[trigger] after[k],
        )
}

/// Whether `result` is among `results` with everything but its score.
pub open spec fn has_result(
    results: Seq<SearchResult<EngineSearchResult>>,
    result: SearchResult<EngineSearchResult>,
) -> bool {
    exists|k: int|
        0 <= k < results.len() && (#[trigger] results[k]).result == result.result
            && results[k].engines == result.engines
}

/// Whether `result` is one of `before` with the score that the scoring gave for
/// what describes it.
pub open spec fn is_scored<F: Fn(&RerankConfig, &Signals) -> Binary64>(
    combine: F,
    config: &RerankConfig,
    data: &RerankData,
    query: Seq<char>,
    before: Seq<SearchResult<EngineSearchResult>>,
    result: SearchResult<EngineSearchResult>,
) -> bool {
    exists|i: int, signals: Signals|
        {
            &&& 0 <= i < before.len()
            &&& result.result == before[i].result
            &&& result.engines == before[i].engines
            &&& #[trigger] signals.describe(data, query, max_score(before), before[i])
            &&& combine.ensures((config, &signals), result.score)
        }
}

/// Re-ranking leaves exactly the results whose source is not excluded. Each has
/// the score that the scoring gave for what describes it, and the greater score
/// comes first; where no score was above zero, scores and order stay.
pub proof fn law_reranked_lists<F: Fn(&RerankConfig, &Signals) -> Binary64>(
    data: &RerankData,
    config: &RerankConfig,
    query: &str,
    combine: F,
)
    ensures
        forall|results: &mut Vec<SearchResult<EngineSearchResult>>| #[trigger]
            call_ensures(rerank::<F>, (data, config, query, results, combine), ()) ==> is_ranking(
                combine,
                config,
                data,
                query@,
                results@,
                final(results)@,
            ),
{
    assert forall|results: &mut Vec<SearchResult<EngineSearchResult>>| #[trigger]
        call_ensures(rerank::<F>, (data, config, query, results, combine), ()) implies is_ranking(
        combine,
        config,
        data,
        query@,
        results@,
        final(results)@,
    ) by {
        lemma_ranking(combine, config, data, query@, results@, final(results)@);
    }
}

proof fn lemma_ranking<F: Fn(&RerankConfig, &Signals) -> Binary64>(
    combine: F,
    config: &RerankConfig,
    data: &RerankData,
    query: Seq<char>,
    before: Seq<SearchResult<EngineSearchResult>>,
    after: Seq<SearchResult<EngineSearchResult>>,
)
    requires
        is_reranked(combine, config, data, query, before, after),
        only_unblocked(data, before, after),
    ensures
        is_ranking(combine, config, data, query, before, after),
{
    assert forall|i: int|
        0 <= i < before.len() && identity(
            data,
            parts_of((#[trigger] before[i]).result.url@),
        ) is Some implies has_result(after, before[i]) by {
        let score = choose|score: Binary64| #[trigger]
            after.contains(crate::rerank::with_score(before[i], score));
        let r = crate::rerank::with_score(before[i], score);
        let k = choose|k: int| 0 <= k < after.len() && after[k] == r;
        assert(after[k].result == before[i].result);
    }
    if max_score(before).place() != 0 {
        assert forall|k: int| 0 <= k < after.len() implies is_scored(
            combine,
            config,
            data,
            query,
            before,
            #[trigger] after[k],
        ) by {
            crate::laws::rerank::law_reranked_results_are_scored(
                combine,
                config,
                data,
                query,
                before,
                after,
                k,
            );
        }
        assert forall|k: int, l: int| 0 <= k < l < after.len() implies (
        #[trigger] after[k]).score.place() >= (#[trigger] after[l]).score.place() by {
            crate::laws::rerank::law_reranked_results_are_scored(
                combine,
                config,
                data,
                query,
                before,
                after,
                k,
            );
        }
    }
}

} // verus!
