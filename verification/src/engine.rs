//! The search engines and what they return.

use crate::number::Binary64;
use std::collections::BTreeSet;
use vstd::prelude::*;

verus! {

/// A search engine.
#[derive(Clone, Copy, Debug, PartialEq, Eq, Structural, PartialOrd, Ord, Hash)]
pub enum Engine {
    Google,
    Bing,
    Brave,
    Marginalia,
    GoogleScholar,
    RightDao,
    Stract,
    Yep,
    Numbat,
    Fend,
    Mdn,
    /// Any other engine, by a number of its own.
    Other(u32),
}

impl Engine {
    /// The number by which configurations are kept.
    pub open spec fn number(self) -> u64 {
        match self {
            Engine::Google => 0,
            Engine::Bing => 1,
            Engine::Brave => 2,
            Engine::Marginalia => 3,
            Engine::GoogleScholar => 4,
            Engine::RightDao => 5,
            Engine::Stract => 6,
            Engine::Yep => 7,
            Engine::Numbat => 8,
            Engine::Fend => 9,
            Engine::Mdn => 10,
            Engine::Other(n) => (11 + n) as u64,
        }
    }

    /// The number by which configurations are kept.
    pub fn id(self) -> (r: u64)
        ensures
            r == self.number(),
    {
        match self {
            Engine::Google => 0,
            Engine::Bing => 1,
            Engine::Brave => 2,
            Engine::Marginalia => 3,
            Engine::GoogleScholar => 4,
            Engine::RightDao => 5,
            Engine::Stract => 6,
            Engine::Yep => 7,
            Engine::Numbat => 8,
            Engine::Fend => 9,
            Engine::Mdn => 10,
            Engine::Other(n) => 11 + n as u64,
        }
    }
}

/// Different engines have different numbers.
pub proof fn law_numbers_are_distinct(a: Engine, b: Engine)
    requires
        a.number() == b.number(),
    ensures
        a == b,
{
}

/// What is searched for.
#[derive(Clone, Debug, PartialEq, Eq)]
pub struct SearchQuery {
    pub query: String,
}

/// One result of an engine.
#[derive(Clone, Debug, PartialEq, Eq)]
pub struct EngineSearchResult {
    pub url: String,
    pub title: String,
    pub description: String,
}

/// A result as merged from several engines.
#[derive(Clone, Debug, PartialEq, Eq)]
pub struct SearchResult<R> {
    pub result: R,
    /// The engines that returned the result.
    pub engines: BTreeSet<Engine>,
    pub score: Binary64,
}

/// One image of an engine.
#[derive(Clone, Debug, PartialEq, Eq)]
pub struct EngineImageResult {
    pub image_url: String,
    pub page_url: String,
    pub title: String,
    pub width: u64,
    pub height: u64,
}

/// What an engine found.
#[derive(Clone, Debug, PartialEq, Eq)]
pub struct EngineResponse {
    pub search_results: Vec<EngineSearchResult>,
}

/// The images that an engine found.
#[derive(Clone, Debug, PartialEq, Eq)]
pub struct EngineImagesResponse {
    pub image_results: Vec<EngineImageResult>,
}

} // verus!
