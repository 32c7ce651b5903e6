//! LuciferDonghua extractor (follow-up).
//!
//! A WordPress-themed donghua streaming site with no public JSON API —
//! search, episode lists, and embed servers all need HTML scraping, and it
//! embeds third-party hosts (the lulacloud family among them) for playback.
//! Wired as an unavailable placeholder so the UI can show a "currently
//! unavailable" state; flip `available()` and fill these in once the
//! scrapers are built.

use vstd::prelude::*;
use super::{EpisodeRef, ExtractError, Extractor, SearchOpts, SearchResult, SeriesDetail, StreamOption};

verus! {

pub const UNAVAILABLE: &'static str = "LuciferDonghua support is coming in a future update.";

#[derive(Debug, Clone, Copy, PartialEq, Eq, Structural)]
pub struct LuciferDonghua;

impl Extractor for LuciferDonghua {
    open spec fn site_id(&self) -> Seq<char> {
        "luciferdonghua"@
    }

    open spec fn site_label(&self) -> Seq<char> {
        "LuciferDonghua"@
    }

    open spec fn is_searchable(&self) -> bool {
        true
    }

    open spec fn is_available(&self) -> bool {
        false
    }

    fn id(&self) -> (r: &'static str) {
        "luciferdonghua"
    }

    fn label(&self) -> (r: &'static str) {
        "LuciferDonghua"
    }

    fn searchable(&self) -> (r: bool) {
        true
    }

    fn available(&self) -> (r: bool) {
        false
    }
}

impl LuciferDonghua {
    /// Search is not available yet.
    pub fn search(&self, _q: &str, _o: &SearchOpts) -> (r: Result<Vec<SearchResult>, ExtractError>)
        ensures
            r matches Err(ExtractError::Unavailable(m)) && m@ == UNAVAILABLE@,
    {
        Err(ExtractError::Unavailable(String::from_str(UNAVAILABLE)))
    }

    /// Episode listing is not available yet.
    pub fn detail(&self, _id: &str, _o: &SearchOpts) -> (r: Result<SeriesDetail, ExtractError>)
        ensures
            r matches Err(ExtractError::Unavailable(m)) && m@ == UNAVAILABLE@,
    {
        Err(ExtractError::Unavailable(String::from_str(UNAVAILABLE)))
    }

    /// Stream resolution is not available yet.
    pub fn resolve_streams(&self, _ep: &EpisodeRef) -> (r: Result<Vec<StreamOption>, ExtractError>)
        ensures
            r matches Err(ExtractError::Unavailable(m)) && m@ == UNAVAILABLE@,
    {
        Err(ExtractError::Unavailable(String::from_str(UNAVAILABLE)))
    }
}

} // verus!
