//! The server's configuration: defaults, and overlays read from a file.

pub mod engines;
pub mod urls;
pub mod weights;

use crate::config::engines::{
    all_overlaid, is_default_engines, partial_entries, EnginesConfig, PartialEngineSettings,
    PartialEnginesConfig,
};
use crate::config::urls::{
    all_replaced, given_weights, law_ordered_weights_stay, longest_first, place_of, replaceable,
    replacements, rules, weight_entries, weights, PartialUrlsConfig, PlaceWeight, UrlsConfig,
};
use crate::config::weights::{PartialRerankConfig, RerankConfig};
use crate::engine::Engine;
use crate::number::Binary64;
use crate::text::{chars_of, find_char, string_of};
use vstd::prelude::*;

verus! {

/// The given value, or else the one that was there.
pub open spec fn given_or<T>(given: Option<T>, there: T) -> T {
    match given {
        Some(value) => value,
        None => there,
    }
}

/// Replaces the value in `there` where one is given.
pub(crate) fn overlay_value<T>(there: &mut T, given: Option<T>)
    ensures
        *final(there) == given_or(given, *old(there)),
{
    if let Some(value) = given {
        *there = value;
    }
}

// --- User interface ---

#[derive(Debug, Clone)]
pub struct UiConfig {
    pub show_engine_list_separator: bool,
    pub show_version_info: bool,
    /// Settings are always accessible anyways, this just controls whether the
    /// link to them in the index page is visible.
    pub show_settings_link: bool,
    pub site_name: String,
    pub show_autocomplete: bool,
    pub stylesheet_url: String,
    pub stylesheet_str: String,
    pub favicon_url: String,
}

#[derive(Debug, Default)]
pub struct PartialUiConfig {
    pub show_engine_list_separator: Option<bool>,
    pub show_version_info: Option<bool>,
    pub show_settings_link: Option<bool>,
    pub show_autocomplete: Option<bool>,
    pub site_name: Option<String>,
    pub stylesheet_url: Option<String>,
    pub stylesheet_str: Option<String>,
    pub favicon_url: Option<String>,
}

impl UiConfig {
    /// The configuration with the given values in place of its own.
    pub open spec fn overlaid(self, partial: PartialUiConfig) -> UiConfig {
        UiConfig {
            show_engine_list_separator: given_or(
                partial.show_engine_list_separator,
                self.show_engine_list_separator,
            ),
            show_version_info: given_or(partial.show_version_info, self.show_version_info),
            show_settings_link: given_or(partial.show_settings_link, self.show_settings_link),
            site_name: given_or(partial.site_name, self.site_name),
            show_autocomplete: given_or(partial.show_autocomplete, self.show_autocomplete),
            stylesheet_url: given_or(partial.stylesheet_url, self.stylesheet_url),
            stylesheet_str: given_or(partial.stylesheet_str, self.stylesheet_str),
            favicon_url: given_or(partial.favicon_url, self.favicon_url),
        }
    }

    /// Puts the given values in place of the configuration's own.
    pub fn overlay(&mut self, partial: PartialUiConfig)
        ensures
            *final(self) == old(self).overlaid(partial),
    {
        overlay_value(&mut self.show_engine_list_separator, partial.show_engine_list_separator);
        overlay_value(&mut self.show_version_info, partial.show_version_info);
        overlay_value(&mut self.show_settings_link, partial.show_settings_link);
        overlay_value(&mut self.show_autocomplete, partial.show_autocomplete);
        overlay_value(&mut self.site_name, partial.site_name);
        overlay_value(&mut self.stylesheet_url, partial.stylesheet_url);
        overlay_value(&mut self.stylesheet_str, partial.stylesheet_str);
        overlay_value(&mut self.favicon_url, partial.favicon_url);
    }
}

// --- Image search ---

#[derive(Debug, Clone)]
pub struct ImageSearchConfig {
    pub enabled: bool,
    pub show_engines: bool,
    pub proxy: ImageProxyConfig,
}

#[derive(Debug, Default)]
pub struct PartialImageSearchConfig {
    pub enabled: Option<bool>,
    pub show_engines: Option<bool>,
    pub proxy: Option<PartialImageProxyConfig>,
}

impl ImageSearchConfig {
    /// The configuration with the given values in place of its own.
    pub open spec fn overlaid(self, partial: PartialImageSearchConfig) -> ImageSearchConfig {
        ImageSearchConfig {
            enabled: given_or(partial.enabled, self.enabled),
            show_engines: given_or(partial.show_engines, self.show_engines),
            proxy: match partial.proxy {
                Some(proxy) => self.proxy.overlaid(proxy),
                None => self.proxy,
            },
        }
    }

    /// Puts the given values in place of the configuration's own.
    pub fn overlay(&mut self, partial: PartialImageSearchConfig)
        ensures
            *final(self) == old(self).overlaid(partial),
    {
        overlay_value(&mut self.enabled, partial.enabled);
        overlay_value(&mut self.show_engines, partial.show_engines);
        if let Some(proxy) = partial.proxy {
            self.proxy.overlay(proxy);
        }
    }
}

#[derive(Debug, Clone)]
pub struct ImageProxyConfig {
    /// Whether we should proxy remote images through our server. This is mostly
    /// a privacy feature.
    pub enabled: bool,
    /// The maximum size of an image that can be proxied. This is in bytes.
    pub max_download_size: u64,
}

#[derive(Debug, Default)]
pub struct PartialImageProxyConfig {
    pub enabled: Option<bool>,
    pub max_download_size: Option<u64>,
}

impl ImageProxyConfig {
    /// The configuration with the given values in place of its own.
    pub open spec fn overlaid(self, partial: PartialImageProxyConfig) -> ImageProxyConfig {
        ImageProxyConfig {
            enabled: given_or(partial.enabled, self.enabled),
            max_download_size: given_or(partial.max_download_size, self.max_download_size),
        }
    }

    /// Puts the given values in place of the configuration's own.
    pub fn overlay(&mut self, partial: PartialImageProxyConfig)
        ensures
            *final(self) == old(self).overlaid(partial),
    {
        overlay_value(&mut self.enabled, partial.enabled);
        overlay_value(&mut self.max_download_size, partial.max_download_size);
    }
}

// --- URLs ---

#[derive(Debug, PartialEq)]
pub struct HostAndPath {
    pub host: String,
    pub path: String,
}

/// The part of `s` before its first slash, or all of it.
pub open spec fn host_part(s: Seq<char>) -> Seq<char> {
    match s.index_of_first('/') {
        Some(at) => s.take(at),
        None => s,
    }
}

/// The part of `s` after its first slash, or nothing.
pub open spec fn path_part(s: Seq<char>) -> Seq<char> {
    match s.index_of_first('/') {
        Some(at) => s.skip(at + 1),
        None => Seq::empty(),
    }
}

impl View for HostAndPath {
    type V = (Seq<char>, Seq<char>);

    open spec fn view(&self) -> (Seq<char>, Seq<char>) {
        (self.host@, self.path@)
    }
}

impl Clone for HostAndPath {
    fn clone(&self) -> (r: HostAndPath)
        ensures
            r == *self,
    {
        HostAndPath { host: self.host.clone(), path: self.path.clone() }
    }
}

impl HostAndPath {
    /// Splits `s` at its first slash, which belongs to neither part.
    pub fn new(s: &str) -> (r: HostAndPath)
        ensures
            r@ == (host_part(s@), path_part(s@)),
    {
        let chars = chars_of(s);
        let len = chars.len();
        proof {
            s@.index_of_first_ensures('/');
        }
        match find_char(&chars, '/') {
            Some(at) => {
                assert(chars@.subrange(0, at as int) =~= host_part(s@));
                assert(chars@.subrange(at + 1, chars@.len() as int) =~= path_part(s@));
                HostAndPath {
                    host: string_of(&chars[0..at]),
                    path: string_of(&chars[at + 1..len]),
                }
            },
            None => HostAndPath { host: string_of(&chars), path: String::new() },
        }
    }
}

// --- The whole configuration ---

/// An address that the server can listen on.
#[derive(Debug, Clone, Copy, PartialEq, Eq)]
pub enum SocketAddress {
    V4 { octets: [u8; 4], port: u16 },
    V6 { segments: [u16; 8], port: u16, flowinfo: u32, scope_id: u32 },
}

#[derive(Debug, Clone)]
pub struct Config {
    pub bind: SocketAddress,
    /// Whether the JSON API should be accessible.
    pub api: bool,
    pub ui: UiConfig,
    pub image_search: ImageSearchConfig,
    pub engines: EnginesConfig,
    pub urls: UrlsConfig,
    pub rerank: RerankConfig,
}

/// Partial overlay for `Config`.
#[derive(Debug)]
pub struct PartialConfig {
    pub bind: Option<SocketAddress>,
    pub api: Option<bool>,
    pub ui: Option<PartialUiConfig>,
    pub image_search: Option<PartialImageSearchConfig>,
    pub engines: Option<PartialEnginesConfig>,
    pub urls: Option<PartialUrlsConfig>,
    pub rerank: Option<PartialRerankConfig>,
}

impl PartialConfig {
    /// The entries for engines, if any.
    pub open spec fn engine_entries(self) -> Seq<(Engine, PartialEngineSettings)> {
        match self.engines {
            Some(engines) => partial_entries(engines.map@),
            None => Seq::empty(),
        }
    }

    /// The replacement entries, if any.
    pub open spec fn replace_entries(self) -> Seq<(Seq<char>, Seq<char>)> {
        match self.urls {
            Some(urls) => replacements(urls.replace@),
            None => Seq::empty(),
        }
    }

    /// The weight entries, if any.
    pub open spec fn weight_entries(self) -> Seq<(Seq<char>, Binary64)> {
        match self.urls {
            Some(urls) => weight_entries(urls.weight@),
            None => Seq::empty(),
        }
    }
}

impl UiConfig {
    /// Whether this is the default configuration.
    pub open spec fn is_default(self) -> bool {
        &&& !self.show_engine_list_separator
        &&& !self.show_version_info
        &&& self.site_name@ == "metasearch"@
        &&& self.show_settings_link
        &&& self.stylesheet_url@ == ""@
        &&& self.stylesheet_str@ == ""@
        &&& self.favicon_url@ == ""@
        &&& self.show_autocomplete
    }
}

impl ImageSearchConfig {
    /// The default configuration.
    pub open spec fn spec_default() -> ImageSearchConfig {
        ImageSearchConfig {
            enabled: false,
            show_engines: true,
            proxy: ImageProxyConfig { enabled: true, max_download_size: 10_000_000 },
        }
    }
}

impl Config {
    /// Whether this is the default configuration.
    pub open spec fn is_default(self) -> bool {
        &&& self.bind == (SocketAddress::V4 { octets: [0, 0, 0, 0], port: 28019 })
        &&& !self.api
        &&& self.ui.is_default()
        &&& self.image_search == ImageSearchConfig::spec_default()
        &&& is_default_engines(self.engines@)
        &&& self.urls.holds(
            seq![(place_of("minecraft.fandom.com/wiki/"@), place_of("minecraft.wiki/w/"@))],
            Seq::empty(),
        )
        &&& self.rerank.is_default()
    }

    /// Whether the overlay takes away no replacement that is not there.
    pub open spec fn spec_accepts(self, partial: PartialConfig) -> bool {
        replaceable(rules(self.urls.replace@), partial.replace_entries())
    }

    /// Whether this is `before` with the values of `partial` over its own.
    pub open spec fn is_overlaid(self, before: Config, partial: PartialConfig) -> bool {
        &&& self.bind == given_or(partial.bind, before.bind)
        &&& self.api == given_or(partial.api, before.api)
        &&& self.ui == match partial.ui {
            Some(ui) => before.ui.overlaid(ui),
            None => before.ui,
        }
        &&& self.image_search == match partial.image_search {
            Some(image_search) => before.image_search.overlaid(image_search),
            None => before.image_search,
        }
        &&& self.engines@ == all_overlaid(before.engines@, partial.engine_entries())
        &&& self.urls.holds(
            all_replaced(rules(before.urls.replace@), partial.replace_entries()),
            longest_first(weights(before.urls.weight@) + given_weights(partial.weight_entries())),
        )
        &&& self.rerank == match partial.rerank {
            Some(rerank) => before.rerank.overlaid(rerank),
            None => before.rerank,
        }
    }

    /// Whether the overlay takes away no replacement that is not there.
    pub fn accepts(&self, partial: &PartialConfig) -> (r: bool)
        ensures
            r == self.spec_accepts(*partial),
    {
        match &partial.urls {
            Some(urls) => self.urls.accepts(urls),
            None => true,
        }
    }

    /// Puts the given values in place of the configuration's own.
    pub fn overlay(&mut self, partial: PartialConfig)
        requires
            old(self).spec_accepts(partial),
        ensures
            final(self).is_overlaid(*old(self), partial),
    {
        let ghost replace = partial.replace_entries();
        let ghost weight = partial.weight_entries();
        overlay_value(&mut self.bind, partial.bind);
        overlay_value(&mut self.api, partial.api);
        if let Some(ui) = partial.ui {
            self.ui.overlay(ui);
        }
        if let Some(image_search) = partial.image_search {
            self.image_search.overlay(image_search);
        }
        if let Some(engines) = partial.engines {
            self.engines.overlay(engines);
        }
        let urls = match partial.urls {
            Some(urls) => urls,
            None => PartialUrlsConfig { replace: Vec::new(), weight: Vec::new() },
        };
        assert(replacements(urls.replace@) =~= replace);
        assert(weight_entries(urls.weight@) =~= weight);
        self.urls.overlay(urls);
        if let Some(rerank) = partial.rerank {
            self.rerank.overlay(rerank);
        }
    }
}

impl Config {
    /// The default configuration with the given values in place of its own;
    /// nothing where they take away a replacement that is not there.
    pub fn from_given(partial: PartialConfig) -> (r: Option<Config>)
        ensures
            exists|default: Config|
                {
                    &&& #[trigger] default.is_default()
                    &&& match r {
                        Some(config) => default.spec_accepts(partial) && config.is_overlaid(
                            default,
                            partial,
                        ),
                        None => !default.spec_accepts(partial),
                    }
                },
    {
        let mut config = Config::default();
        let ghost default = config;
        assert(default.is_default());
        if !config.accepts(&partial) {
            return None;
        }
        config.overlay(partial);
        Some(config)
    }
}

impl Default for Config {
    fn default() -> (r: Config)
        ensures
            r.is_default(),
    {
        let ui = UiConfig {
            show_engine_list_separator: false,
            show_version_info: false,
            site_name: "metasearch".to_owned(),
            show_settings_link: true,
            stylesheet_url: "".to_owned(),
            stylesheet_str: "".to_owned(),
            favicon_url: "".to_owned(),
            show_autocomplete: true,
        };
        let image_search = ImageSearchConfig {
            enabled: false,
            show_engines: true,
            proxy: ImageProxyConfig { enabled: true, max_download_size: 10_000_000 },
        };
        let urls = UrlsConfig {
            replace: vec![
                (
                    HostAndPath::new("minecraft.fandom.com/wiki/"),
                    HostAndPath::new("minecraft.wiki/w/"),
                ),
            ],
            weight: Vec::new(),
        };
        proof {
            assert(rules(urls.replace@) =~= seq![
                (place_of("minecraft.fandom.com/wiki/"@), place_of("minecraft.wiki/w/"@)),
            ]);
            assert(weights(urls.weight@) =~= Seq::empty());
        }
        let octets: [u8; 4] = [0, 0, 0, 0];
        Config {
            bind: SocketAddress::V4 { octets, port: 28019 },
            api: false,
            ui,
            image_search,
            engines: EnginesConfig::default(),
            urls,
            rerank: RerankConfig::default(),
        }
    }
}

// --- Laws ---

/// An overlay that gives nothing changes nothing, but for the order of the
/// weights, and not that either once an overlay has put them in order.
pub proof fn law_empty_overlay(before: Config, after: Config)
    requires
        after.is_overlaid(
            before,
            (PartialConfig {
                bind: None,
                api: None,
                ui: None,
                image_search: None,
                engines: None,
                urls: None,
                rerank: None,
            }),
        ),
    ensures
        after.bind == before.bind,
        after.api == before.api,
        after.ui == before.ui,
        after.image_search == before.image_search,
        after.engines@ == before.engines@,
        rules(after.urls.replace@) == rules(before.urls.replace@),
        weights(after.urls.weight@) == longest_first(weights(before.urls.weight@)),
        after.rerank == before.rerank,
        forall|unordered: Seq<PlaceWeight>|
            weights(before.urls.weight@) == #[trigger] longest_first(unordered) ==> weights(
                after.urls.weight@,
            ) == weights(before.urls.weight@),
{
    let none = Seq::<(Seq<char>, Binary64)>::empty();
    assert(weights(before.urls.weight@) + given_weights(none) =~= weights(before.urls.weight@));
    assert forall|unordered: Seq<PlaceWeight>|
        weights(before.urls.weight@) == #[trigger] longest_first(unordered) implies weights(
        after.urls.weight@,
    ) == weights(before.urls.weight@) by {
        law_ordered_weights_stay(unordered);
    }
}

/// Giving the same values of the interface, the image search and the reranking
/// a second time changes nothing.
pub proof fn law_overlay_again(
    ui: UiConfig,
    partial_ui: PartialUiConfig,
    image_search: ImageSearchConfig,
    partial_image_search: PartialImageSearchConfig,
    rerank: RerankConfig,
    partial_rerank: PartialRerankConfig,
)
    ensures
        ui.overlaid(partial_ui).overlaid(partial_ui) == ui.overlaid(partial_ui),
        image_search.overlaid(partial_image_search).overlaid(partial_image_search)
            == image_search.overlaid(partial_image_search),
        rerank.overlaid(partial_rerank).overlaid(partial_rerank) == rerank.overlaid(
            partial_rerank,
        ),
{
}

} // verus!
