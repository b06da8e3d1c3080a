//! Laws of configurations and their overlays.

use crate::config::engines::{
    all_overlaid, partial_entries, settings_of, EngineConfig, EngineSettings,
    PartialDefaultableEngineConfig, PartialEngineConfig, PartialEngineSettings,
};
use crate::config::urls::{
    all_replaced, given_weights, has_rule, is_first, longest_first, place_len, place_of,
    replaceable, replacements, rules, weight_entries, weights, PlaceWeight, Rule,
};
use crate::config::weights::{
    L2FeatureWeights, PartialL2FeatureWeights, PartialRerankConfig, PartialUrlSignalWeights,
    RerankConfig, UrlSignalWeights,
};
use crate::config::{
    Config, HostAndPath, ImageProxyConfig, ImageSearchConfig, PartialConfig,
    PartialImageProxyConfig, PartialImageSearchConfig, PartialUiConfig, UiConfig,
};
use crate::engine::Engine;
use crate::laws::rerank::moves;
use crate::number::Binary64;
use crate::order::{descending, lemma_descending, precedes};
use vstd::prelude::*;
use vstd::utf8::encode_utf8;

verus! {

// --- Values ---

/// Whether a value became the one that was given, or stayed where none was.
pub open spec fn is_taken<T>(given: Option<T>, before: T, after: T) -> bool {
    &&& given is Some ==> after == given->0
    &&& given is None ==> after == before
}

/// Each value that is given is taken, and each that is not stays.
pub proof fn law_given_ui_values_win(before: UiConfig, partial: PartialUiConfig)
    ensures
        is_taken(
            partial.show_engine_list_separator,
            before.show_engine_list_separator,
            before.overlaid(partial).show_engine_list_separator,
        ),
        is_taken(
            partial.show_version_info,
            before.show_version_info,
            before.overlaid(partial).show_version_info,
        ),
        is_taken(
            partial.show_settings_link,
            before.show_settings_link,
            before.overlaid(partial).show_settings_link,
        ),
        is_taken(
            partial.show_autocomplete,
            before.show_autocomplete,
            before.overlaid(partial).show_autocomplete,
        ),
        is_taken(partial.site_name, before.site_name, before.overlaid(partial).site_name),
        is_taken(
            partial.stylesheet_url,
            before.stylesheet_url,
            before.overlaid(partial).stylesheet_url,
        ),
        is_taken(
            partial.stylesheet_str,
            before.stylesheet_str,
            before.overlaid(partial).stylesheet_str,
        ),
        is_taken(partial.favicon_url, before.favicon_url, before.overlaid(partial).favicon_url),
{
}

/// Each value that is given is taken, and each that is not stays;
/// the proxy is overlaid by itself.
pub proof fn law_given_image_search_values_win(
    before: ImageSearchConfig,
    partial: PartialImageSearchConfig,
)
    ensures
        is_taken(partial.enabled, before.enabled, before.overlaid(partial).enabled),
        is_taken(partial.show_engines, before.show_engines, before.overlaid(partial).show_engines),
        partial.proxy is None ==> before.overlaid(partial).proxy == before.proxy,
        partial.proxy is Some ==> before.overlaid(partial).proxy == before.proxy.overlaid(
            partial.proxy->0,
        ),
{
}

/// Each value that is given is taken, and each that is not stays.
pub proof fn law_given_image_proxy_values_win(
    before: ImageProxyConfig,
    partial: PartialImageProxyConfig,
)
    ensures
        is_taken(partial.enabled, before.enabled, before.overlaid(partial).enabled),
        is_taken(
            partial.max_download_size,
            before.max_download_size,
            before.overlaid(partial).max_download_size,
        ),
{
}

/// Each value that is given is taken, and each that is not stays.
pub proof fn law_given_l2_weights_win(before: L2FeatureWeights, partial: PartialL2FeatureWeights)
    ensures
        is_taken(
            partial.capitalized_word_ratio,
            before.capitalized_word_ratio,
            before.overlaid(partial).capitalized_word_ratio,
        ),
        is_taken(
            partial.unique_word_ratio,
            before.unique_word_ratio,
            before.overlaid(partial).unique_word_ratio,
        ),
        is_taken(
            partial.technical_term_density,
            before.technical_term_density,
            before.overlaid(partial).technical_term_density,
        ),
        is_taken(
            partial.avg_word_length,
            before.avg_word_length,
            before.overlaid(partial).avg_word_length,
        ),
        is_taken(
            partial.char_per_word,
            before.char_per_word,
            before.overlaid(partial).char_per_word,
        ),
{
}

/// Each value that is given is taken, and each that is not stays.
pub proof fn law_given_url_signal_weights_win(
    before: UrlSignalWeights,
    partial: PartialUrlSignalWeights,
)
    ensures
        is_taken(partial.url_depth, before.url_depth, before.overlaid(partial).url_depth),
        is_taken(
            partial.url_slug_word_count,
            before.url_slug_word_count,
            before.overlaid(partial).url_slug_word_count,
        ),
        is_taken(partial.is_docs_path, before.is_docs_path, before.overlaid(partial).is_docs_path),
        is_taken(
            partial.is_forum_path,
            before.is_forum_path,
            before.overlaid(partial).is_forum_path,
        ),
        is_taken(
            partial.is_institutional_tld,
            before.is_institutional_tld,
            before.overlaid(partial).is_institutional_tld,
        ),
        is_taken(
            partial.domain_token_count,
            before.domain_token_count,
            before.overlaid(partial).domain_token_count,
        ),
        is_taken(
            partial.has_subdomain,
            before.has_subdomain,
            before.overlaid(partial).has_subdomain,
        ),
        is_taken(
            partial.is_commercial_pattern,
            before.is_commercial_pattern,
            before.overlaid(partial).is_commercial_pattern,
        ),
{
}

/// Each value that is given is taken, and each that is not stays;
/// weights are overlaid by themselves.
pub proof fn law_given_rerank_values_win(before: RerankConfig, partial: PartialRerankConfig)
    ensures
        is_taken(partial.enabled, before.enabled, before.overlaid(partial).enabled),
        is_taken(partial.alpha, before.alpha, before.overlaid(partial).alpha),
        is_taken(partial.beta, before.beta, before.overlaid(partial).beta),
        is_taken(partial.gamma, before.gamma, before.overlaid(partial).gamma),
        is_taken(partial.delta, before.delta, before.overlaid(partial).delta),
        is_taken(
            partial.blocklist_path,
            before.blocklist_path,
            before.overlaid(partial).blocklist_path,
        ),
        is_taken(
            partial.reputation_path,
            before.reputation_path,
            before.overlaid(partial).reputation_path,
        ),
        partial.l2_weights is None ==> before.overlaid(partial).l2_weights == before.l2_weights,
        partial.l2_weights is Some ==> before.overlaid(partial).l2_weights == before.l2_weights.overlaid(
            partial.l2_weights->0,
        ),
        partial.url_signal_weights is None ==> before.overlaid(partial).url_signal_weights == before.url_signal_weights,
        partial.url_signal_weights is Some ==> before.overlaid(partial).url_signal_weights == before.url_signal_weights.overlaid(
            partial.url_signal_weights->0,
        ),
{
}

/// Each part of the configuration that is given is overlaid, and each that is
/// not stays; the weights of places come in order.
pub proof fn law_given_config_values_win(before: Config, partial: PartialConfig, after: Config)
    requires
        after.is_overlaid(before, partial),
    ensures
        partial.bind is Some ==> after.bind == partial.bind->0,
        partial.bind is None ==> after.bind == before.bind,
        partial.api is Some ==> after.api == partial.api->0,
        partial.api is None ==> after.api == before.api,
        partial.ui is Some ==> after.ui == before.ui.overlaid(partial.ui->0),
        partial.ui is None ==> after.ui == before.ui,
        partial.image_search is Some ==> after.image_search == before.image_search.overlaid(
            partial.image_search->0,
        ),
        partial.image_search is None ==> after.image_search == before.image_search,
        partial.engines is Some ==> after.engines@ == all_overlaid(
            before.engines@,
            partial_entries(partial.engines->0.map@),
        ),
        partial.engines is None ==> after.engines@ == before.engines@,
        partial.urls is Some ==> rules(after.urls.replace@) == all_replaced(
            rules(before.urls.replace@),
            replacements(partial.urls->0.replace@),
        ) && weights(after.urls.weight@) == longest_first(
            weights(before.urls.weight@) + given_weights(weight_entries(partial.urls->0.weight@)),
        ),
        partial.urls is None ==> rules(after.urls.replace@) == rules(before.urls.replace@)
            && weights(after.urls.weight@) == longest_first(weights(before.urls.weight@)),
        partial.rerank is Some ==> after.rerank == before.rerank.overlaid(partial.rerank->0),
        partial.rerank is None ==> after.rerank == before.rerank,
        before.spec_accepts(partial) <==> (partial.urls is Some ==> replaceable(
            rules(before.urls.replace@),
            replacements(partial.urls->0.replace@),
        )),
{
    if partial.urls is None {
        let none = Seq::<(Seq<char>, Binary64)>::empty();
        assert(weights(before.urls.weight@) + given_weights(none) =~= weights(
            before.urls.weight@,
        ));
    }
}

// --- Engines ---

/// Each value of an engine that is given is taken, and each that is not stays,
/// the extra ones key by key.
pub proof fn law_given_engine_values_win(
    before: EngineSettings,
    partial: PartialEngineSettings,
    key: Seq<char>,
)
    ensures
        is_taken(partial.enabled, before.enabled, before.overlaid(partial).enabled),
        is_taken(partial.weight, before.weight, before.overlaid(partial).weight),
        before.overlaid(partial).extra.contains_key(key) <==> before.extra.contains_key(key)
            || partial.extra.contains_key(key),
        partial.extra.contains_key(key) ==> before.overlaid(partial).extra[key]
            == partial.extra[key],
        before.extra.contains_key(key) && !partial.extra.contains_key(key) ==> before.overlaid(
            partial,
        ).extra[key] == before.extra[key],
{
}

/// What is said of an engine is in its fields; a mere switch says nothing else.
pub proof fn law_engine_configs_are_their_fields(
    config: EngineConfig,
    partial: PartialEngineConfig,
    enabled: bool,
    key: Seq<char>,
    entries: Seq<(Engine, PartialDefaultableEngineConfig)>,
)
    ensures
        config@.enabled == config.enabled,
        config@.weight == config.weight,
        config@.extra == crate::data::table_contents(config.extra),
        partial@.enabled == partial.enabled,
        partial@.weight == partial.weight,
        partial@.extra == crate::data::table_contents(partial.extra),
        PartialDefaultableEngineConfig::Full(partial)@ == partial@,
        PartialDefaultableEngineConfig::Boolean(enabled)@.enabled == Some(enabled),
        PartialDefaultableEngineConfig::Boolean(enabled)@.weight is None,
        !PartialDefaultableEngineConfig::Boolean(enabled)@.extra.contains_key(key),
        partial_entries(entries).len() == entries.len(),
        forall|i: int|
            0 <= i < entries.len() ==> #[trigger] partial_entries(entries)[i] == (
                entries[i].0,
                entries[i].1@,
            ),
{
}

/// An engine has what it is configured with, and else is enabled, weighs one
/// and has nothing extra.
pub proof fn law_settings_of_engines(
    map: Map<u64, EngineSettings>,
    engine: Engine,
    key: Seq<char>,
)
    ensures
        map.contains_key(engine.number()) ==> settings_of(map, engine) == map[engine.number()],
        !map.contains_key(engine.number()) ==> {
            let settings = settings_of(map, engine);
            settings.enabled && settings.weight.bits == 0x3ff0_0000_0000_0000
                && !settings.extra.contains_key(key)
        },
{
}

/// Entries for engines are taken one after another, each over what its engine
/// had; no other engine is touched.
pub proof fn law_engines_are_overlaid_in_turn(
    map: Map<u64, EngineSettings>,
    a: Seq<(Engine, PartialEngineSettings)>,
    b: Seq<(Engine, PartialEngineSettings)>,
    engine: Engine,
    partial: PartialEngineSettings,
    n: u64,
)
    ensures
        all_overlaid(map, a + b) == all_overlaid(all_overlaid(map, a), b),
        all_overlaid(map, Seq::empty()) == map,
        all_overlaid(map, seq![(engine, partial)]).contains_key(engine.number()),
        all_overlaid(map, seq![(engine, partial)])[engine.number()] == settings_of(
            map,
            engine,
        ).overlaid(partial),
        n != engine.number() ==> (all_overlaid(map, seq![(engine, partial)]).contains_key(n)
            <==> map.contains_key(n)),
        n != engine.number() && map.contains_key(n) ==> all_overlaid(
            map,
            seq![(engine, partial)],
        )[n] == map[n],
    decreases b.len(),
{
    let one = seq![(engine, partial)];
    assert(one.drop_last() =~= Seq::empty());
    assert(all_overlaid(map, one.drop_last()) == map);
    if b.len() == 0 {
        assert(a + b =~= a);
    } else {
        law_engines_are_overlaid_in_turn(map, a, b.drop_last(), engine, partial, n);
        assert((a + b).drop_last() =~= a + b.drop_last());
    }
}

// --- URLs ---

/// Entries are taken one after another.
pub proof fn law_replacements_are_taken_in_turn(
    before: Seq<Rule>,
    a: Seq<(Seq<char>, Seq<char>)>,
    b: Seq<(Seq<char>, Seq<char>)>,
)
    ensures
        all_replaced(before, a + b) == all_replaced(all_replaced(before, a), b),
        replaceable(before, a + b) <==> replaceable(before, a) && replaceable(
            all_replaced(before, a),
            b,
        ),
        all_replaced(before, Seq::empty()) == before,
        replaceable(before, Seq::empty()),
    decreases b.len(),
{
    if b.len() == 0 {
        assert(a + b =~= a);
    } else {
        law_replacements_are_taken_in_turn(before, a, b.drop_last());
        assert((a + b).drop_last() =~= a + b.drop_last());
    }
}

/// An entry with a replacement adds a rule at the end. One without takes away
/// the first rule for its place, which has to be there, and the last rule takes
/// the position that is free.
pub proof fn law_one_replacement(before: Seq<Rule>, from: Seq<char>, to: Seq<char>, at: int)
    ensures
        to.len() > 0 ==> all_replaced(before, seq![(from, to)]) == before.push(
            (place_of(from), place_of(to)),
        ) && replaceable(before, seq![(from, to)]),
        to.len() == 0 ==> (replaceable(before, seq![(from, to)]) <==> exists|i: int|
            0 <= i < before.len() && (#[trigger] before[i]).0 == place_of(from)),
        to.len() == 0 && 0 <= at < before.len() && before[at].0 == place_of(from) && (forall|i: int|
            0 <= i < at ==> (#[trigger] before[i]).0 != place_of(from)) ==> {
            let after = all_replaced(before, seq![(from, to)]);
            &&& after.len() == before.len() - 1
            &&& forall|i: int|
                0 <= i < after.len() && i != at ==> #[trigger] after[i] == before[i]
            &&& at < after.len() ==> after[at] == before.last()
        },
{
    let one = seq![(from, to)];
    let place = place_of(from);
    assert(one.drop_last() =~= Seq::empty());
    assert(all_replaced(before, one.drop_last()) == before);
    assert(replaceable(before, one.drop_last()));
    if to.len() == 0 {
        if exists|i: int| 0 <= i < before.len() && (#[trigger] before[i]).0 == place {
            let i = choose|i: int| 0 <= i < before.len() && (#[trigger] before[i]).0 == place;
            let first = lemma_first_rule(before, place, i);
            assert(has_rule(before, place));
        }
        if has_rule(before, place) {
            let first = choose|first: int| is_first(before, place, first);
            assert(before[first].0 == place);
        }
        if 0 <= at < before.len() && before[at].0 == place && (forall|i: int|
            0 <= i < at ==> (#[trigger] before[i]).0 != place) {
            assert(is_first(before, place, at));
            let first = choose|first: int| is_first(before, place, first);
            assert(first == at);
        }
    }
}

proof fn lemma_first_rule(before: Seq<Rule>, place: (Seq<char>, Seq<char>), i: int) -> (first: int)
    requires
        0 <= i < before.len(),
        before[i].0 == place,
    ensures
        is_first(before, place, first),
    decreases i,
{
    if exists|j: int| 0 <= j < i && (#[trigger] before[j]).0 == place {
        let j = choose|j: int| 0 <= j < i && (#[trigger] before[j]).0 == place;
        lemma_first_rule(before, place, j)
    } else {
        i
    }
}

/// Whether the weight at position `a` goes before the one at position `b`: by
/// the bytes of its place, and of equally long ones by its position.
pub open spec fn is_longer(list: Seq<PlaceWeight>, a: int, b: int) -> bool {
    let m = encode_utf8(list[a].0.0).len() + encode_utf8(list[a].0.1).len();
    let n = encode_utf8(list[b].0.0).len() + encode_utf8(list[b].0.1).len();
    m > n || (m == n && a < b)
}

/// Weights are moved so that the longest places come first, and of equally long
/// ones the one that came first.
pub proof fn law_longer_places_go_first(list: Seq<PlaceWeight>)
    ensures
        longest_first(list).len() == list.len(),
        exists|from: Seq<int>| #[trigger]
            moves(from, list, longest_first(list)) && forall|i: int, j: int|
                0 <= i < j < from.len() ==> #[trigger] is_longer(list, from[i], from[j]),
{
    let keys = list.map_values(|w: PlaceWeight| place_len(w.0));
    let from = descending(keys);
    lemma_descending(keys);
    assert(moves(from, list, longest_first(list)));
    assert forall|i: int, j: int| 0 <= i < j < from.len() implies #[trigger] is_longer(
        list,
        from[i],
        from[j],
    ) by {
        assert(precedes(keys, from[i], from[j]));
        assert(keys[from[i]] == place_len(list[from[i]].0));
        assert(keys[from[j]] == place_len(list[from[j]].0));
    }
}

/// Entries, rules and weights are what their fields hold, each in its turn; the
/// weight that an entry gives is for the place that it names.
pub proof fn law_url_entries_are_their_fields(
    place: HostAndPath,
    replace: Seq<(HostAndPath, HostAndPath)>,
    weight: Seq<(HostAndPath, Binary64)>,
    replaced: Seq<(String, String)>,
    weighed: Seq<(String, Binary64)>,
    given: Seq<(Seq<char>, Binary64)>,
)
    ensures
        place@ == (place.host@, place.path@),
        rules(replace).len() == replace.len(),
        forall|i: int|
            0 <= i < replace.len() ==> #[trigger] rules(replace)[i] == (
                replace[i].0@,
                replace[i].1@,
            ),
        weights(weight).len() == weight.len(),
        forall|i: int|
            0 <= i < weight.len() ==> #[trigger] weights(weight)[i] == (weight[i].0@, weight[i].1),
        replacements(replaced).len() == replaced.len(),
        forall|i: int|
            0 <= i < replaced.len() ==> #[trigger] replacements(replaced)[i] == (
                replaced[i].0@,
                replaced[i].1@,
            ),
        weight_entries(weighed).len() == weighed.len(),
        forall|i: int|
            0 <= i < weighed.len() ==> #[trigger] weight_entries(weighed)[i] == (
                weighed[i].0@,
                weighed[i].1,
            ),
        given_weights(given).len() == given.len(),
        forall|i: int|
            0 <= i < given.len() ==> #[trigger] given_weights(given)[i] == (
                place_of(given[i].0),
                given[i].1,
            ),
{
}

} // verus!
