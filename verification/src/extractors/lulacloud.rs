//! LulaCloud resolver (follow-up).
//!
//! LulaCloud (lulacloudx / lulastream family) is an embed/stream HOST, not
//! a searchable catalog — other sites (e.g. LuciferDonghua) embed it for
//! playback. It therefore never appears in the search dropdown
//! (`searchable() == false`); it exists as a resolver another extractor can
//! call with an embed URL to obtain the underlying `.m3u8`. Not yet wired.

use vstd::prelude::*;
use super::{EpisodeRef, ExtractError, Extractor, SearchOpts, SearchResult, SeriesDetail, StreamOption};

verus! {

#[derive(Debug, Clone, Copy, PartialEq, Eq, Structural)]
pub struct LulaCloud;

impl Extractor for LulaCloud {
    open spec fn site_id(&self) -> Seq<char> {
        "lulacloud"@
    }

    open spec fn site_label(&self) -> Seq<char> {
        "LulaCloud"@
    }

    open spec fn is_searchable(&self) -> bool {
        false
    }

    open spec fn is_available(&self) -> bool {
        false
    }

    fn id(&self) -> (r: &'static str) {
        "lulacloud"
    }

    fn label(&self) -> (r: &'static str) {
        "LulaCloud"
    }

    fn searchable(&self) -> (r: bool) {
        false
    }

    fn available(&self) -> (r: bool) {
        false
    }
}

impl LulaCloud {
    /// Searching a stream host is refused.
    pub fn search(&self, _q: &str, _o: &SearchOpts) -> (r: Result<Vec<SearchResult>, ExtractError>)
        ensures
            r matches Err(ExtractError::Unavailable(m)) && m@
                == "LulaCloud is a stream host, not a searchable site."@,
    {
        Err(ExtractError::Unavailable(String::from_str("LulaCloud is a stream host, not a searchable site.")))
    }

    /// Listing episodes on a stream host is refused.
    pub fn detail(&self, _id: &str, _o: &SearchOpts) -> (r: Result<SeriesDetail, ExtractError>)
        ensures
            r matches Err(ExtractError::Unavailable(m)) && m@
                == "LulaCloud is a stream host, not a searchable site."@,
    {
        Err(ExtractError::Unavailable(String::from_str("LulaCloud is a stream host, not a searchable site.")))
    }

    /// Resolving through this host is not implemented yet.
    pub fn resolve_streams(&self, _ep: &EpisodeRef) -> (r: Result<Vec<StreamOption>, ExtractError>)
        ensures
            r matches Err(ExtractError::Unavailable(m)) && m@
                == "LulaCloud resolver is not implemented yet."@,
    {
        Err(ExtractError::Unavailable(String::from_str("LulaCloud resolver is not implemented yet.")))
    }
}

} // verus!
