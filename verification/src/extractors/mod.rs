//! Streaming-site extractors: the data they exchange and the logic that
//! turns site responses into it.
//!
//! Each supported site (1) searches a catalog, (2) lists a title's
//! seasons/episodes, and (3) resolves a chosen episode down to a concrete
//! stream URL (`.m3u8`/`.mp4`) that the downloader can fetch. Every
//! extractor is isolated behind the registry so a break in one site never
//! takes down the others.

pub mod allanime;
pub mod decode;
pub mod luciferdonghua;
pub mod lulacloud;

use vstd::prelude::*;
use crate::text::{concat_str, pairs_view, str_eq};
use allanime::AllAnime;
use luciferdonghua::LuciferDonghua;
use lulacloud::LulaCloud;

verus! {

/// Firefox UA reused for every extractor request AND handed to the
/// downloader, so the resolved stream is fetched with the same identity that
/// produced the token.
pub const USER_AGENT: &'static str =
    "Mozilla/5.0 (Windows NT 10.0; Win64; x64; rv:150.0) Gecko/20100101 Firefox/150.0";

/// Whether a title is a single film or an episodic series. Drives the UI:
/// movies download immediately, series show the season/episode picker.
#[derive(Debug, Clone, Copy, PartialEq, Eq, Structural)]
pub enum Kind {
    Movie,
    Series,
}

#[derive(Debug, Clone)]
pub struct SearchResult {
    pub id: String,
    pub title: String,
    pub poster: Option<String>,
    pub kind: Kind,
    pub site: String,
    pub year: Option<i32>,
}

#[derive(Debug, Clone)]
pub struct Episode {
    /// Episode label as the site knows it ("1", "2", "12.5"). Passed back
    /// verbatim when resolving streams — never reformat it.
    pub number: String,
    pub id: String,
    pub title: Option<String>,
}

#[derive(Debug, Clone)]
pub struct Season {
    pub number: u32,
    pub episodes: Vec<Episode>,
}

#[derive(Debug, Clone)]
pub struct SeriesDetail {
    pub id: String,
    pub title: String,
    pub kind: Kind,
    /// Sites without a season concept (e.g. AllAnime) emit exactly one season.
    pub seasons: Vec<Season>,
}

/// Identifies one episode to resolve. `show_id`/`episode` come straight
/// from a [`SearchResult`]/[`Episode`]; `translation` is "sub" or "dub".
/// `episode_id` is the site's own per-episode key (e.g. the episode page
/// URL) for sites where the display number alone can't locate the episode;
/// sites keyed by number (AllAnime) simply mirror `episode` here.
#[derive(Debug, Clone)]
pub struct EpisodeRef {
    pub site: String,
    pub show_id: String,
    pub episode: String,
    pub episode_id: String,
    pub translation: String,
}

/// One playable stream variant. `height` is `None` when the URL is a master
/// playlist that itself lists resolutions (let the downloader pick with a
/// height filter); `Some` when it's already a single fixed-resolution
/// stream.
#[derive(Debug, Clone)]
pub struct StreamOption {
    pub height: Option<u32>,
    pub url: String,
    pub is_hls: bool,
    pub referer: Option<String>,
    pub headers: Vec<(String, String)>,
}

/// The text of an optional string.
pub open spec fn opt_text(o: Option<String>) -> Option<Seq<char>> {
    match o {
        Some(s) => Some(s@),
        None => None,
    }
}

/// A stream option as plain values: height, URL, HLS flag, referer and
/// request headers.
pub type OptionView = (Option<u32>, Seq<char>, bool, Option<Seq<char>>, Seq<(Seq<char>, Seq<char>)>);

/// The plain values of a stream option.
pub open spec fn option_view(o: StreamOption) -> OptionView {
    (
        o.height,
        o.url@,
        o.is_hls,
        opt_text(o.referer),
        pairs_view(o.headers@),
    )
}

/// The plain values of a list of stream options.
pub open spec fn options_view(v: Seq<StreamOption>) -> Seq<OptionView> {
    v.map_values(|o: StreamOption| option_view(o))
}

impl StreamOption {
    /// A copy of this option.
    pub(crate) fn duplicate(&self) -> (r: StreamOption)
        ensures
            option_view(r) == option_view(*self),
    {
        let mut headers: Vec<(String, String)> = Vec::new();
        let mut i: usize = 0;
        while i < self.headers.len()
            invariant
                i <= self.headers.len(),
                headers@.len() == i,
                pairs_view(headers@) == pairs_view(self.headers@.subrange(0, i as int)),
            decreases self.headers.len() - i,
        {
            let ghost before = headers@;
            let pair = (self.headers[i].0.clone(), self.headers[i].1.clone());
            headers.push(pair);
            assert(headers@ == before.push(pair));
            assert(pair.0 == self.headers@[i as int].0 && pair.1 == self.headers@[i as int].1);
            assert(self.headers@.subrange(0, i + 1) =~= self.headers@.subrange(0, i as int).push(
                self.headers@[i as int],
            ));
            assert forall|j: int| 0 <= j < i + 1 implies #[trigger] pairs_view(headers@)[j] == pairs_view(
                self.headers@.subrange(0, i + 1),
            )[j] by {
                if j < i {
                    assert(pairs_view(before)[j] == pairs_view(self.headers@.subrange(0, i as int))[j]);
                    assert(headers@[j] == before[j]);
                    assert(self.headers@.subrange(0, i + 1)[j] == self.headers@.subrange(0, i as int)[j]);
                }
            }
            assert(pairs_view(headers@) =~= pairs_view(self.headers@.subrange(0, i + 1)));
            i += 1;
        }
        assert(self.headers@.subrange(0, self.headers@.len() as int) =~= self.headers@);
        let referer = match &self.referer {
            Some(r) => Some(r.clone()),
            None => None,
        };
        StreamOption { height: self.height, url: self.url.clone(), is_hls: self.is_hls, referer, headers }
    }
}

/// A search result as plain values: id, title, poster, kind, site, year.
pub type ResultView = (Seq<char>, Seq<char>, Option<Seq<char>>, Kind, Seq<char>, Option<i32>);

/// The plain values of a search result.
pub open spec fn result_view(r: SearchResult) -> ResultView {
    (r.id@, r.title@, opt_text(r.poster), r.kind, r.site@, r.year)
}

/// The plain values of a list of search results.
pub open spec fn results_view(v: Seq<SearchResult>) -> Seq<ResultView> {
    v.map_values(|r: SearchResult| result_view(r))
}

/// An episode as plain values: number, id, title.
pub open spec fn episode_view(e: Episode) -> (Seq<char>, Seq<char>, Option<Seq<char>>) {
    (e.number@, e.id@, opt_text(e.title))
}

#[derive(Debug, Clone)]
pub struct SearchOpts {
    /// "sub" or "dub".
    pub translation: String,
}

/// Advertised to the frontend so the site dropdown can list what's
/// available and grey out sites that are known-broken without breaking the
/// others.
#[derive(Debug, Clone)]
pub struct SiteInfo {
    pub id: String,
    pub label: String,
    pub available: bool,
}

/// A localized failure. `Unavailable` is used both for "this site isn't
/// wired up yet" and "the site changed and the scraper broke" — the UI shows
/// a "currently unavailable" state rather than crashing.
#[derive(Debug, Clone)]
pub enum ExtractError {
    Network(String),
    Parse(String),
    Unavailable(String),
}

/// The text shown for an extraction error.
pub open spec fn error_text(e: ExtractError) -> Seq<char> {
    match e {
        ExtractError::Network(m) => "network error: "@ + m@,
        ExtractError::Parse(m) => "could not read the site's response: "@ + m@,
        ExtractError::Unavailable(m) => m@,
    }
}

impl ExtractError {
    /// The text shown for this error.
    pub fn message(&self) -> (r: String)
        ensures
            r@ == error_text(*self),
    {
        match self {
            ExtractError::Network(m) => concat_str("network error: ", m.as_str()),
            ExtractError::Parse(m) => concat_str("could not read the site's response: ", m.as_str()),
            ExtractError::Unavailable(m) => m.clone(),
        }
    }
}

/// Describes one site of the registry.
pub trait Extractor {
    /// The site's identifier.
    spec fn site_id(&self) -> Seq<char>;

    /// The site's display name.
    spec fn site_label(&self) -> Seq<char>;

    /// A site the user can type a query into. Pure stream hosts return
    /// false and never appear in the site dropdown.
    spec fn is_searchable(&self) -> bool;

    /// Whether the site is wired up and believed working.
    /// Searchable-but-unavailable sites show greyed in the UI.
    spec fn is_available(&self) -> bool;

    fn id(&self) -> (r: &'static str)
        ensures
            r@ == self.site_id(),
    ;

    fn label(&self) -> (r: &'static str)
        ensures
            r@ == self.site_label(),
    ;

    fn searchable(&self) -> (r: bool)
        ensures
            r == self.is_searchable(),
    ;

    fn available(&self) -> (r: bool)
        ensures
            r == self.is_available(),
    ;
}

/// One extractor of the registry.
#[derive(Debug, Clone, Copy, PartialEq, Eq, Structural)]
pub enum SiteExtractor {
    AllAnime(AllAnime),
    LuciferDonghua(LuciferDonghua),
    LulaCloud(LulaCloud),
}

impl Extractor for SiteExtractor {
    open spec fn site_id(&self) -> Seq<char> {
        match self {
            SiteExtractor::AllAnime(e) => e.site_id(),
            SiteExtractor::LuciferDonghua(e) => e.site_id(),
            SiteExtractor::LulaCloud(e) => e.site_id(),
        }
    }

    open spec fn site_label(&self) -> Seq<char> {
        match self {
            SiteExtractor::AllAnime(e) => e.site_label(),
            SiteExtractor::LuciferDonghua(e) => e.site_label(),
            SiteExtractor::LulaCloud(e) => e.site_label(),
        }
    }

    open spec fn is_searchable(&self) -> bool {
        match self {
            SiteExtractor::AllAnime(e) => e.is_searchable(),
            SiteExtractor::LuciferDonghua(e) => e.is_searchable(),
            SiteExtractor::LulaCloud(e) => e.is_searchable(),
        }
    }

    open spec fn is_available(&self) -> bool {
        match self {
            SiteExtractor::AllAnime(e) => e.is_available(),
            SiteExtractor::LuciferDonghua(e) => e.is_available(),
            SiteExtractor::LulaCloud(e) => e.is_available(),
        }
    }

    fn id(&self) -> (r: &'static str) {
        match self {
            SiteExtractor::AllAnime(e) => e.id(),
            SiteExtractor::LuciferDonghua(e) => e.id(),
            SiteExtractor::LulaCloud(e) => e.id(),
        }
    }

    fn label(&self) -> (r: &'static str) {
        match self {
            SiteExtractor::AllAnime(e) => e.label(),
            SiteExtractor::LuciferDonghua(e) => e.label(),
            SiteExtractor::LulaCloud(e) => e.label(),
        }
    }

    fn searchable(&self) -> (r: bool) {
        match self {
            SiteExtractor::AllAnime(e) => e.searchable(),
            SiteExtractor::LuciferDonghua(e) => e.searchable(),
            SiteExtractor::LulaCloud(e) => e.searchable(),
        }
    }

    fn available(&self) -> (r: bool) {
        match self {
            SiteExtractor::AllAnime(e) => e.available(),
            SiteExtractor::LuciferDonghua(e) => e.available(),
            SiteExtractor::LulaCloud(e) => e.available(),
        }
    }
}

/// The registry: the extractor registered under `site`.
pub open spec fn spec_get(site: Seq<char>) -> Option<SiteExtractor> {
    if site == "allanime"@ {
        Some(SiteExtractor::AllAnime(AllAnime))
    } else if site == "luciferdonghua"@ {
        Some(SiteExtractor::LuciferDonghua(LuciferDonghua))
    } else if site == "lulacloud"@ {
        Some(SiteExtractor::LulaCloud(LulaCloud))
    } else {
        None
    }
}

/// Look up an extractor (searchable sites AND resolver-only hosts) by id.
pub fn get(site: &str) -> (r: Option<SiteExtractor>)
    ensures
        r == spec_get(site@),
        r matches Some(e) ==> e.site_id() == site@,
{
    proof {
        reveal_strlit("allanime");
        reveal_strlit("luciferdonghua");
        reveal_strlit("lulacloud");
    }
    if str_eq(site, "allanime") {
        Some(SiteExtractor::AllAnime(AllAnime))
    } else if str_eq(site, "luciferdonghua") {
        Some(SiteExtractor::LuciferDonghua(LuciferDonghua))
    } else if str_eq(site, "lulacloud") {
        Some(SiteExtractor::LulaCloud(LulaCloud))
    } else {
        None
    }
}

/// The sites offered for searching, in display order.
pub open spec fn offered_sites() -> Seq<Seq<char>> {
    seq!["allanime"@, "luciferdonghua"@]
}

/// What the site dropdown shows of a site.
pub open spec fn info_of(e: SiteExtractor) -> (Seq<char>, Seq<char>, bool) {
    (e.site_id(), e.site_label(), e.is_available())
}

/// The view of a list of site descriptions.
pub open spec fn infos_view(v: Seq<SiteInfo>) -> Seq<(Seq<char>, Seq<char>, bool)> {
    v.map_values(|s: SiteInfo| (s.id@, s.label@, s.available))
}

/// The registered extractors among `ids` that are searchable, in order.
pub open spec fn searchable_of(ids: Seq<Seq<char>>) -> Seq<(Seq<char>, Seq<char>, bool)>
    decreases ids.len(),
{
    if ids.len() == 0 {
        Seq::empty()
    } else {
        let rest = searchable_of(ids.drop_last());
        match spec_get(ids.last()) {
            Some(e) => if e.is_searchable() {
                rest.push(info_of(e))
            } else {
                rest
            },
            None => rest,
        }
    }
}

/// The sites the frontend offers in its search dropdown, in display order.
pub fn searchable_sites() -> (r: Vec<SiteInfo>)
    ensures
        infos_view(r@) == searchable_of(offered_sites()),
{
    let ids: [&str; 2] = ["allanime", "luciferdonghua"];
    let ghost idv = seq![ids[0]@, ids[1]@];
    assert(idv =~= offered_sites());
    let mut r: Vec<SiteInfo> = Vec::new();
    let mut i: usize = 0;
    while i < 2
        invariant
            i <= 2,
            idv == offered_sites(),
            idv[0] == ids[0]@,
            idv[1] == ids[1]@,
            infos_view(r@) == searchable_of(idv.subrange(0, i as int)),
        decreases 2 - i,
    {
        let ghost before = r@;
        assert(idv.subrange(0, i + 1).drop_last() =~= idv.subrange(0, i as int));
        if let Some(e) = get(ids[i]) {
            if e.searchable() {
                let info = SiteInfo {
                    id: String::from_str(e.id()),
                    label: String::from_str(e.label()),
                    available: e.available(),
                };
                r.push(info);
                assert(infos_view(r@) =~= infos_view(before).push(info_of(e)));
            }
        }
        i += 1;
    }
    assert(idv.subrange(0, 2) =~= idv);
    r
}

} // verus!
