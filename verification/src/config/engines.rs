//! Which engines are asked, and what their results weigh.

use crate::config::{given_or, overlay_value};
use crate::data::{
    clone_table, entries_map, extend_with, insert_into, integer_value, new_table, table_contents,
    table_value, text_value, toml_tree, Tree,
};
use crate::engine::{law_numbers_are_distinct, Engine};
use crate::number::Binary64;
use std::collections::HashMap;
use vstd::prelude::*;

verus! {

broadcast use vstd::std_specs::hash::group_hash_axioms;

// --- One engine ---

/// The configuration of an engine.
#[derive(Debug)]
pub struct EngineConfig {
    pub enabled: bool,
    /// The priority of this engine relative to the other engines.
    pub weight: Binary64,
    /// Per-engine configs. These are parsed at request time.
    pub extra: toml::Table,
}

/// Partial overlay for `EngineConfig`.
#[derive(Debug)]
pub struct PartialEngineConfig {
    pub enabled: Option<bool>,
    pub weight: Option<Binary64>,
    pub extra: toml::Table,
}

/// What the configuration of an engine holds.
pub struct EngineSettings {
    pub enabled: bool,
    pub weight: Binary64,
    pub extra: Map<Seq<char>, toml::Value>,
}

/// What an overlay for the configuration of an engine holds.
pub struct PartialEngineSettings {
    pub enabled: Option<bool>,
    pub weight: Option<Binary64>,
    pub extra: Map<Seq<char>, toml::Value>,
}

impl View for EngineConfig {
    type V = EngineSettings;

    open spec fn view(&self) -> EngineSettings {
        EngineSettings {
            enabled: self.enabled,
            weight: self.weight,
            extra: table_contents(self.extra),
        }
    }
}

impl View for PartialEngineConfig {
    type V = PartialEngineSettings;

    open spec fn view(&self) -> PartialEngineSettings {
        PartialEngineSettings {
            enabled: self.enabled,
            weight: self.weight,
            extra: table_contents(self.extra),
        }
    }
}

impl EngineSettings {
    /// What engines have that are not configured: they are enabled, and weigh
    /// one.
    pub open spec fn spec_default() -> EngineSettings {
        EngineSettings { enabled: true, weight: Binary64::spec_one(), extra: Map::empty() }
    }

    /// The default settings with another weight.
    pub open spec fn weighing(bits: u64) -> EngineSettings {
        EngineSettings { weight: Binary64 { bits }, ..EngineSettings::spec_default() }
    }

    /// The same settings, switched off.
    pub open spec fn switched_off(self) -> EngineSettings {
        EngineSettings { enabled: false, ..self }
    }

    /// The settings with the given values in place of their own; extra values
    /// are added to the ones that are there.
    pub open spec fn overlaid(self, partial: PartialEngineSettings) -> EngineSettings {
        EngineSettings {
            enabled: given_or(partial.enabled, self.enabled),
            weight: given_or(partial.weight, self.weight),
            extra: self.extra.union_prefer_right(partial.extra),
        }
    }
}

impl Clone for EngineConfig {
    fn clone(&self) -> (r: EngineConfig)
        ensures
            r@ == self@,
    {
        EngineConfig {
            enabled: self.enabled,
            weight: self.weight,
            extra: clone_table(&self.extra),
        }
    }
}

impl Clone for PartialEngineConfig {
    fn clone(&self) -> (r: PartialEngineConfig)
        ensures
            r@ == self@,
    {
        PartialEngineConfig {
            enabled: self.enabled,
            weight: self.weight,
            extra: clone_table(&self.extra),
        }
    }
}

impl Default for EngineConfig {
    fn default() -> (r: EngineConfig)
        ensures
            r@ == EngineSettings::spec_default(),
    {
        let extra = new_table();
        assert(table_contents(extra) =~= Map::empty());
        EngineConfig { enabled: true, weight: Binary64::one(), extra }
    }
}

impl EngineConfig {
    /// The configuration of an engine that is enabled and weighs one.
    pub fn new() -> (r: EngineConfig)
        ensures
            r@ == EngineSettings::spec_default(),
    {
        EngineConfig::default()
    }

    /// The configuration with another weight.
    pub fn with_weight(self, weight: Binary64) -> (r: EngineConfig)
        ensures
            r@ == (EngineSettings { weight, ..self@ }),
    {
        EngineConfig { weight, ..self }
    }

    /// The configuration, switched off.
    pub fn disabled(self) -> (r: EngineConfig)
        ensures
            r@ == self@.switched_off(),
    {
        EngineConfig { enabled: false, ..self }
    }

    /// The configuration with other extra values.
    pub fn with_extra(self, extra: toml::Table) -> (r: EngineConfig)
        ensures
            r@ == (EngineSettings { extra: table_contents(extra), ..self@ }),
    {
        EngineConfig { extra, ..self }
    }

    /// Puts the given values in place of the configuration's own, and adds the
    /// extra ones.
    pub fn overlay(&mut self, partial: PartialEngineConfig)
        ensures
            final(self)@ == old(self)@.overlaid(partial@),
    {
        overlay_value(&mut self.enabled, partial.enabled);
        overlay_value(&mut self.weight, partial.weight);
        extend_with(&mut self.extra, partial.extra);
    }
}

// --- All engines ---

/// What a configuration file says of an engine: only whether it is enabled, or
/// more.
#[derive(Debug, Clone)]
pub enum PartialDefaultableEngineConfig {
    Boolean(bool),
    Full(PartialEngineConfig),
}

impl View for PartialDefaultableEngineConfig {
    type V = PartialEngineSettings;

    open spec fn view(&self) -> PartialEngineSettings {
        match self {
            PartialDefaultableEngineConfig::Boolean(enabled) => PartialEngineSettings {
                enabled: Some(*enabled),
                weight: None,
                extra: Map::empty(),
            },
            PartialDefaultableEngineConfig::Full(partial) => partial@,
        }
    }
}

/// The configurations of the engines, by the engines' numbers.
#[derive(Debug)]
pub struct EnginesConfig {
    map: HashMap<u64, EngineConfig>,
    /// What the engines without a configuration have.
    unlisted: EngineConfig,
}

/// Partial overlay for `EnginesConfig`.
#[derive(Debug, Default)]
pub struct PartialEnginesConfig {
    pub map: Vec<(Engine, PartialDefaultableEngineConfig)>,
}

/// The entries of an overlay.
pub open spec fn partial_entries(
    map: Seq<(Engine, PartialDefaultableEngineConfig)>,
) -> Seq<(Engine, PartialEngineSettings)> {
    map.map_values(|e: (Engine, PartialDefaultableEngineConfig)| (e.0, e.1@))
}

/// The settings of an engine: those it is configured with, else the default.
pub open spec fn settings_of(map: Map<u64, EngineSettings>, engine: Engine) -> EngineSettings {
    if map.contains_key(engine.number()) {
        map[engine.number()]
    } else {
        EngineSettings::spec_default()
    }
}

/// The configurations after the entries of an overlay.
pub open spec fn all_overlaid(
    map: Map<u64, EngineSettings>,
    entries: Seq<(Engine, PartialEngineSettings)>,
) -> Map<u64, EngineSettings>
    decreases entries.len(),
{
    if entries.len() == 0 {
        map
    } else {
        let before = all_overlaid(map, entries.drop_last());
        let engine = entries.last().0;
        before.insert(
            engine.number(),
            settings_of(before, engine).overlaid(entries.last().1),
        )
    }
}

/// The settings that configurations hold.
spec fn settings_map(map: Map<u64, EngineConfig>) -> Map<u64, EngineSettings> {
    map.map_values(|config: EngineConfig| config@)
}

impl View for EnginesConfig {
    type V = Map<u64, EngineSettings>;

    closed spec fn view(&self) -> Map<u64, EngineSettings> {
        settings_map(self.map@)
    }
}

impl Clone for EnginesConfig {
    fn clone(&self) -> (r: EnginesConfig)
        ensures
            r@ == self@,
    {
        proof {
            use_type_invariant(self);
        }
        EnginesConfig { map: self.map.clone(), unlisted: self.unlisted.clone() }
    }
}

impl EnginesConfig {
    /// Engines without a configuration have the default one.
    #[verifier::type_invariant]
    spec fn unlisted_is_default(&self) -> bool {
        self.unlisted@ == EngineSettings::spec_default()
    }

    /// A configuration of no engine.
    pub fn empty() -> (r: EnginesConfig)
        ensures
            r@ == Map::<u64, EngineSettings>::empty(),
    {
        let r = EnginesConfig { map: HashMap::new(), unlisted: EngineConfig::default() };
        assert(r@ =~= Map::<u64, EngineSettings>::empty());
        r
    }

    /// Configures an engine, in place of any configuration that it had.
    pub fn insert(&mut self, engine: Engine, config: EngineConfig)
        ensures
            final(self)@ == old(self)@.insert(engine.number(), config@),
    {
        proof {
            use_type_invariant(&*self);
        }
        let mut map = HashMap::new();
        std::mem::swap(&mut map, &mut self.map);
        map.insert(engine.id(), config);
        self.map = map;
        assert(self@ =~= old(self)@.insert(engine.number(), config@));
    }

    /// Overlays the configuration of each engine that is mentioned, or the
    /// default one where the engine has none.
    pub fn overlay(&mut self, partial: PartialEnginesConfig)
        ensures
            final(self)@ == all_overlaid(old(self)@, partial_entries(partial.map@)),
    {
        let ghost entries = partial_entries(partial.map@);
        let entries_given = partial.map;
        assert(entries.take(0) =~= Seq::empty());
        proof {
            use_type_invariant(&*self);
        }
        let mut map: HashMap<u64, EngineConfig> = HashMap::new();
        std::mem::swap(&mut map, &mut self.map);
        for item in it: entries_given
            invariant
                it.seq() == entries_given@,
                entries == partial_entries(entries_given@),
                settings_map(map@) == all_overlaid(old(self)@, entries.take(it.index() as int)),
        {
            let ghost i = it.index() as int;
            let ghost before = settings_map(map@);
            let engine = item.0;
            proof {
                assert(entries.take(i + 1).drop_last() =~= entries.take(i));
                assert(entries.take(i + 1).last() == (engine, item.1@));
            }
            let full = match item.1 {
                PartialDefaultableEngineConfig::Boolean(enabled) => {
                    let extra = new_table();
                    assert(table_contents(extra) =~= Map::empty());
                    PartialEngineConfig { enabled: Some(enabled), weight: None, extra }
                },
                PartialDefaultableEngineConfig::Full(full) => full,
            };
            let mut config = match map.remove(&engine.id()) {
                Some(existing) => existing,
                None => EngineConfig::default(),
            };
            assert(config@ == settings_of(before, engine));
            config.overlay(full);
            map.insert(engine.id(), config);
            assert(settings_map(map@) =~= before.insert(engine.number(), config@));
        }
        assert(entries.take(entries_given@.len() as int) =~= entries);
        self.map = map;
    }

    /// The configuration of an engine.
    pub fn get(&self, engine: Engine) -> (r: &EngineConfig)
        ensures
            r@ == settings_of(self@, engine),
    {
        proof {
            use_type_invariant(self);
        }
        match self.map.get(&engine.id()) {
            Some(config) => config,
            None => &self.unlisted,
        }
    }
}

// --- Defaults ---

/// The bit pattern of 0.10.
pub const WEIGHT_0_10: u64 = 0x3fb9_9999_9999_999a;

/// The bit pattern of 0.15.
pub const WEIGHT_0_15: u64 = 0x3fc3_3333_3333_3333;

/// The bit pattern of 0.50.
pub const WEIGHT_0_50: u64 = 0x3fe0_0000_0000_0000;

/// The bit pattern of 1.05.
pub const WEIGHT_1_05: u64 = 0x3ff0_cccc_cccc_cccd;

/// The bit pattern of 1.25.
pub const WEIGHT_1_25: u64 = 0x3ff4_0000_0000_0000;

/// The bit pattern of 10.0.
pub const WEIGHT_10: u64 = 0x4024_0000_0000_0000;

/// Whether `extra` holds one value, under `key`.
pub open spec fn holds_only(extra: Map<Seq<char>, toml::Value>, key: Seq<char>) -> bool {
    forall|k: Seq<char>| #[trigger] extra.contains_key(k) <==> k == key
}

/// What Marginalia is asked with by default.
pub open spec fn default_args() -> Map<Seq<char>, Tree> {
    Map::empty().insert("profile"@, Tree::Text("corpo"@)).insert(
        "js"@,
        Tree::Text("default"@),
    ).insert("adtech"@, Tree::Text("default"@))
}

/// Whether these are the default settings of Marginalia.
pub open spec fn is_default_marginalia(settings: EngineSettings) -> bool {
    &&& settings.enabled
    &&& settings.weight.bits == WEIGHT_0_15
    &&& holds_only(settings.extra, "args"@)
    &&& toml_tree(settings.extra["args"@]) is Table
    &&& entries_map(toml_tree(settings.extra["args"@])->Table_0) == default_args()
}

/// Whether these are the default settings of MDN.
pub open spec fn is_default_mdn(settings: EngineSettings) -> bool {
    &&& settings.enabled
    &&& settings.weight == Binary64::spec_one()
    &&& holds_only(settings.extra, "max_sections"@)
    &&& toml_tree(settings.extra["max_sections"@]) == Tree::Integer(1)
}

/// Whether this is the default configuration. Engines are enabled by default,
/// so that engines that are not listed are enabled.
pub open spec fn is_default_engines(map: Map<u64, EngineSettings>) -> bool {
    &&& forall|n: u64| #[trigger] map.contains_key(n) <==> n <= 10
    &&& map[Engine::Google.number()] == EngineSettings::weighing(WEIGHT_1_05)
    &&& map[Engine::Bing.number()] == EngineSettings::spec_default()
    &&& map[Engine::Brave.number()] == EngineSettings::weighing(WEIGHT_1_25)
    &&& is_default_marginalia(map[Engine::Marginalia.number()])
    &&& map[Engine::GoogleScholar.number()] == EngineSettings::weighing(
        WEIGHT_0_50,
    ).switched_off()
    &&& map[Engine::RightDao.number()] == EngineSettings::weighing(WEIGHT_0_10).switched_off()
    &&& map[Engine::Stract.number()] == EngineSettings::weighing(WEIGHT_0_15).switched_off()
    &&& map[Engine::Yep.number()] == EngineSettings::weighing(WEIGHT_0_10).switched_off()
    &&& map[Engine::Numbat.number()] == EngineSettings::weighing(WEIGHT_10)
    &&& map[Engine::Fend.number()] == EngineSettings::weighing(WEIGHT_10).switched_off()
    &&& is_default_mdn(map[Engine::Mdn.number()])
}

/// The default configuration of an engine, with another weight.
fn weighing(bits: u64) -> (r: EngineConfig)
    ensures
        r@ == EngineSettings::weighing(bits),
{
    EngineConfig::new().with_weight(Binary64 { bits })
}

/// The default configuration of Marginalia.
fn default_marginalia() -> (r: EngineConfig)
    ensures
        is_default_marginalia(r@),
{
    let mut args = new_table();
    insert_into(&mut args, "profile".to_owned(), text_value("corpo".to_owned()));
    insert_into(&mut args, "js".to_owned(), text_value("default".to_owned()));
    insert_into(&mut args, "adtech".to_owned(), text_value("default".to_owned()));
    proof {
        reveal_strlit("profile");
        reveal_strlit("js");
        reveal_strlit("adtech");
        assert(table_contents(args).map_values(|value: toml::Value| toml_tree(value))
            =~= default_args());
    }
    let mut extra = new_table();
    insert_into(&mut extra, "args".to_owned(), table_value(args));
    weighing(WEIGHT_0_15).with_extra(extra)
}

/// The default configuration of MDN.
fn default_mdn() -> (r: EngineConfig)
    ensures
        is_default_mdn(r@),
{
    let mut extra = new_table();
    insert_into(&mut extra, "max_sections".to_owned(), integer_value(1));
    EngineConfig::new().with_extra(extra)
}

impl Default for EnginesConfig {
    fn default() -> (r: EnginesConfig)
        ensures
            is_default_engines(r@),
    {
        let mut engines = EnginesConfig::empty();

        // Main search engines.
        engines.insert(Engine::Google, weighing(WEIGHT_1_05));
        engines.insert(Engine::Bing, EngineConfig::new().with_weight(Binary64::one()));
        engines.insert(Engine::Brave, weighing(WEIGHT_1_25));
        engines.insert(Engine::Marginalia, default_marginalia());

        // Additional search engines.
        engines.insert(Engine::GoogleScholar, weighing(WEIGHT_0_50).disabled());
        engines.insert(Engine::RightDao, weighing(WEIGHT_0_10).disabled());
        engines.insert(Engine::Stract, weighing(WEIGHT_0_15).disabled());
        engines.insert(Engine::Yep, weighing(WEIGHT_0_10).disabled());

        // Calculators. A high weight makes them the first thing in autocomplete.
        engines.insert(Engine::Numbat, weighing(WEIGHT_10));
        engines.insert(Engine::Fend, weighing(WEIGHT_10).disabled());

        // Other engines.
        engines.insert(Engine::Mdn, default_mdn());
        engines
    }
}

// --- Laws ---

/// An overlay leaves the engines alone that it does not mention.
pub proof fn law_unmentioned_engines_stay(
    map: Map<u64, EngineSettings>,
    entries: Seq<(Engine, PartialEngineSettings)>,
    engine: Engine,
)
    requires
        forall|i: int| 0 <= i < entries.len() ==> (#[trigger] entries[i]).0 != engine,
    ensures
        settings_of(all_overlaid(map, entries), engine) == settings_of(map, engine),
    decreases entries.len(),
{
    if entries.len() > 0 {
        let n = entries.len() - 1;
        assert forall|i: int| 0 <= i < entries.drop_last().len() implies (
        #[trigger] entries.drop_last()[i]).0 != engine by {
            assert(entries.drop_last()[i] == entries[i]);
        }
        law_unmentioned_engines_stay(map, entries.drop_last(), engine);
        assert(entries[n].0 != engine);
        if entries[n].0.number() == engine.number() {
            law_numbers_are_distinct(entries[n].0, engine);
        }
    }
}

/// In whatever order the entries for different engines are taken, each engine
/// that is mentioned gets what its own entry says over what it had.
pub proof fn law_engine_entries_commute(
    map: Map<u64, EngineSettings>,
    entries: Seq<(Engine, PartialEngineSettings)>,
    at: int,
)
    requires
        0 <= at < entries.len(),
        forall|i: int, j: int|
            0 <= i < j < entries.len() ==> (#[trigger] entries[i]).0 != (#[trigger] entries[j]).0,
    ensures
        settings_of(all_overlaid(map, entries), entries[at].0) == settings_of(
            map,
            entries[at].0,
        ).overlaid(entries[at].1),
    decreases entries.len(),
{
    let n = entries.len() - 1;
    let head = entries.drop_last();
    assert forall|i: int, j: int| 0 <= i < j < head.len() implies (#[trigger] head[i]).0 != (
    #[trigger] head[j]).0 by {
        assert(head[i] == entries[i] && head[j] == entries[j]);
    }
    if at < n {
        assert(head[at] == entries[at]);
        law_engine_entries_commute(map, head, at);
        assert(entries[at].0 != entries[n].0);
        if entries[n].0.number() == entries[at].0.number() {
            law_numbers_are_distinct(entries[n].0, entries[at].0);
        }
    } else {
        assert forall|i: int| 0 <= i < head.len() implies (#[trigger] head[i]).0
            != entries[at].0 by {
            assert(head[i] == entries[i]);
        }
        law_unmentioned_engines_stay(map, head, entries[at].0);
    }
}

/// Overlaying nothing changes nothing.
pub proof fn law_empty_engine_overlay(settings: EngineSettings)
    ensures
        settings.overlaid(
            PartialEngineSettings { enabled: None, weight: None, extra: Map::empty() },
        ) == settings,
{
    assert(settings.extra.union_prefer_right(Map::empty()) =~= settings.extra);
}

/// By default, the engines that are not listed are enabled and weigh one.
pub proof fn law_unlisted_engines_are_enabled(map: Map<u64, EngineSettings>, n: u32)
    requires
        is_default_engines(map),
    ensures
        settings_of(map, Engine::Other(n)) == EngineSettings::spec_default(),
{
    assert(!map.contains_key(Engine::Other(n).number()));
}

} // verus!
