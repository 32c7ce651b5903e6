use yt_grab::extractors::allanime::{
    clock_candidates, clock_options, clock_url, collect_sources, detail_fields, finish_options,
    find_tobeparsed, has_fixed_height, parse_height, prefer_sources, preferred_sources,
    search_results, series_detail, AllAnime,
};
use yt_grab::extractors::luciferdonghua::LuciferDonghua;
use yt_grab::extractors::lulacloud::LulaCloud;
use yt_grab::extractors::{
    get, searchable_sites, EpisodeRef, ExtractError, Extractor, Kind, SearchOpts, SiteExtractor,
    StreamOption, USER_AGENT,
};
use yt_grab::json::{JsonNumber, JsonValue};

fn to_json(v: &serde_json::Value) -> JsonValue {
    match v {
        serde_json::Value::Null => JsonValue::Null,
        serde_json::Value::Bool(b) => JsonValue::Bool(*b),
        serde_json::Value::Number(n) => {
            if let Some(u) = n.as_u64() {
                JsonValue::Number(JsonNumber::PosInt(u))
            } else if let Some(i) = n.as_i64() {
                JsonValue::Number(JsonNumber::NegInt(i))
            } else {
                JsonValue::Number(JsonNumber::Float)
            }
        }
        serde_json::Value::String(s) => JsonValue::Str(s.clone()),
        serde_json::Value::Array(a) => JsonValue::Array(a.iter().map(to_json).collect()),
        serde_json::Value::Object(m) => {
            JsonValue::Object(m.iter().map(|(k, v)| (k.clone(), to_json(v))).collect())
        }
    }
}

fn parse(text: &str) -> JsonValue {
    to_json(&serde_json::from_str::<serde_json::Value>(text).unwrap())
}

fn option(height: Option<u32>, url: &str) -> StreamOption {
    StreamOption { height, url: url.to_string(), is_hls: false, referer: None, headers: vec![] }
}

fn pairs(v: &[(&str, &str)]) -> Vec<(String, String)> {
    v.iter().map(|(a, b)| (a.to_string(), b.to_string())).collect()
}

#[test]
fn registry_finds_each_site_by_id() {
    for id in ["allanime", "luciferdonghua", "lulacloud"] {
        let e = get(id).unwrap();
        assert_eq!(e.id(), id);
    }
    assert!(get("other").is_none());
    assert_eq!(get("allanime"), Some(SiteExtractor::AllAnime(AllAnime)));
    assert_eq!(get("allanime").unwrap().label(), "AllAnime");
    assert!(!get("lulacloud").unwrap().searchable());
}

#[test]
fn dropdown_lists_searchable_sites_in_order() {
    let sites = searchable_sites();
    assert_eq!(sites.len(), 2);
    assert_eq!((sites[0].id.as_str(), sites[0].label.as_str(), sites[0].available), ("allanime", "AllAnime", true));
    assert_eq!(
        (sites[1].id.as_str(), sites[1].label.as_str(), sites[1].available),
        ("luciferdonghua", "LuciferDonghua", false)
    );
}

#[test]
fn error_messages() {
    assert_eq!(ExtractError::Network("timeout".into()).message(), "network error: timeout");
    assert_eq!(
        ExtractError::Parse("bad".into()).message(),
        "could not read the site's response: bad"
    );
    assert_eq!(ExtractError::Unavailable("gone".into()).message(), "gone");
}

#[test]
fn placeholder_sites_refuse() {
    let o = SearchOpts { translation: "sub".into() };
    let ep = EpisodeRef {
        site: "lulacloud".into(),
        show_id: "s".into(),
        episode: "1".into(),
        episode_id: "1".into(),
        translation: "sub".into(),
    };
    match LulaCloud.search("q", &o) {
        Err(ExtractError::Unavailable(m)) => assert_eq!(m, "LulaCloud is a stream host, not a searchable site."),
        _ => panic!(),
    }
    match LulaCloud.resolve_streams(&ep) {
        Err(ExtractError::Unavailable(m)) => assert_eq!(m, "LulaCloud resolver is not implemented yet."),
        _ => panic!(),
    }
    match LuciferDonghua.detail("x", &o) {
        Err(ExtractError::Unavailable(m)) => {
            assert_eq!(m, "LuciferDonghua support is coming in a future update.")
        }
        _ => panic!(),
    }
}

#[test]
fn finds_the_encrypted_blob() {
    assert_eq!(
        find_tobeparsed(r#"{"data":{"tobeparsed":"QUJD+/=="},"x":1}"#).as_deref(),
        Some("QUJD+/==")
    );
    assert_eq!(find_tobeparsed(r#"{"data":{}}"#), None);
    assert_eq!(find_tobeparsed(r#""tobeparsed":"abc"#), None);
}

#[test]
fn reads_heights() {
    assert_eq!(parse_height("1080"), Some(1080));
    assert_eq!(parse_height("1080p"), Some(1080));
    assert_eq!(parse_height("720P"), Some(720));
    assert_eq!(parse_height("auto"), None);
    assert_eq!(parse_height(""), None);
    assert_eq!(parse_height("99999999999p"), None);
}

#[test]
fn collects_sources_depth_first() {
    let v = parse(
        r#"{"data":{"episode":{"sourceUrls":[
            {"sourceUrl":"--1757","sourceName":"Sak","x":{"sourceUrl":"inner"}},
            {"sourceUrl":"https://a/b","sourceName":"Default"},
            {"sourceUrl":7},
            {"sourceUrl":"nameless"}
        ]}}}"#,
    );
    let mut out = Vec::new();
    collect_sources(&v, &mut out);
    assert_eq!(
        out,
        pairs(&[("--1757", "Sak"), ("inner", ""), ("https://a/b", "Default"), ("nameless", "")])
    );
}

#[test]
fn orders_sources_by_provider_preference() {
    let s = pairs(&[("a", "Ok"), ("b", "Unknown"), ("c", "Default"), ("d", "Sak"), ("e", "Default")]);
    assert_eq!(prefer_sources(&s), pairs(&[("c", "Default"), ("e", "Default"), ("d", "Sak"), ("a", "Ok")]));
}

#[test]
fn preferred_sources_need_some_source() {
    match preferred_sources(&parse(r#"{"data":{"episode":{"sourceUrls":[]}}}"#)) {
        Err(ExtractError::Unavailable(m)) => assert_eq!(m, "no sources for this episode"),
        _ => panic!(),
    }
    let v = parse(r#"{"s":[{"sourceUrl":"u","sourceName":"Nope"}]}"#);
    assert_eq!(preferred_sources(&v).unwrap(), vec![]);
}

#[test]
fn tries_the_first_four_decodable_sources() {
    let s = pairs(&[
        ("--17", "Default"),
        ("junk", "Sak"),
        ("https://x", "Kir"),
        ("--1757", "Ok"),
        ("--17", "Ok"),
    ]);
    assert_eq!(clock_candidates(&s), vec!["/".to_string(), "https://x".to_string(), "/o".to_string()]);
}

#[test]
fn builds_clock_urls() {
    assert_eq!(clock_url("/apivtwo/clock?id=1"), "https://allanime.day/apivtwo/clock.json?id=1");
    assert_eq!(clock_url("/x/clock/clock"), "https://allanime.day/x/clock.json/clock");
    assert_eq!(clock_url("/none"), "https://allanime.day/none");
    assert_eq!(clock_url("https://host/clock"), "https://host/clock");
}

#[test]
fn reads_clock_links() {
    let v = parse(
        r#"{"links":[
            {"link":"https://a/1080.mp4","resolutionStr":"1080p","hls":false},
            {"link":"https://a/{resolution}.mp4"},
            {"link":"https://a/master.m3u8","resolutionStr":"auto"},
            {"nolink":1}
        ]}"#,
    );
    let o = clock_options(&v).unwrap();
    assert_eq!(o.len(), 2);
    assert_eq!(o[0].height, Some(1080));
    assert!(!o[0].is_hls);
    assert_eq!(o[0].referer.as_deref(), Some("https://youtu-chan.com"));
    assert_eq!(o[0].headers, vec![("User-Agent".to_string(), USER_AGENT.to_string())]);
    assert_eq!(o[1].height, None);
    assert!(o[1].is_hls);
    match clock_options(&parse(r#"{"links":3}"#)) {
        Err(ExtractError::Parse(m)) => assert_eq!(m, "clock response had no links"),
        _ => panic!(),
    }
}

#[test]
fn orders_and_collapses_options() {
    let v = vec![
        option(Some(720), "a"),
        option(None, "m"),
        option(Some(1080), "b"),
        option(Some(720), "c"),
        option(Some(1080), "b"),
    ];
    let r = finish_options(v).unwrap();
    let got: Vec<(Option<u32>, &str)> = r.iter().map(|o| (o.height, o.url.as_str())).collect();
    assert_eq!(got, vec![(Some(1080), "b"), (Some(720), "a"), (Some(720), "c"), (None, "m")]);
    match finish_options(vec![]) {
        Err(ExtractError::Unavailable(m)) => assert_eq!(m, "no playable stream found for this episode"),
        _ => panic!(),
    }
}

#[test]
fn notices_fixed_heights() {
    assert!(!has_fixed_height(&vec![option(None, "m")]));
    assert!(has_fixed_height(&vec![option(None, "m"), option(Some(480), "x")]));
}

#[test]
fn reads_search_results() {
    let v = parse(
        r#"{"data":{"shows":{"edges":[
            {"_id":"a1","name":"Show","thumbnail":"t.jpg","availableEpisodes":{"sub":12},"airedStart":{"year":2020}},
            {"_id":"a2","name":"Film","availableEpisodes":{"sub":1}},
            {"_id":"a3"},
            {"_id":"a4","name":"Big","airedStart":{"year":4294967297}}
        ]}}}"#,
    );
    let r = search_results(&v).unwrap();
    assert_eq!(r.len(), 3);
    assert_eq!((r[0].id.as_str(), r[0].title.as_str(), r[0].kind, r[0].year), ("a1", "Show", Kind::Series, Some(2020)));
    assert_eq!(r[0].poster.as_deref(), Some("t.jpg"));
    assert_eq!(r[0].site, "allanime");
    assert_eq!((r[1].kind, r[1].year, r[1].poster.clone()), (Kind::Movie, None, None));
    assert_eq!(r[2].year, Some(1));
    match search_results(&parse(r#"{"data":{}}"#)) {
        Err(ExtractError::Parse(m)) => assert_eq!(m, "no shows in response"),
        _ => panic!(),
    }
}

#[test]
fn reads_show_details() {
    let v = parse(
        r#"{"data":{"show":{"name":"N","availableEpisodesDetail":{"sub":["3","2",4,"1"],"dub":[]}}}}"#,
    );
    let (title, eps) = detail_fields(&v, "sub").unwrap();
    assert_eq!(title, "N");
    assert_eq!(eps, vec!["3", "2", "1"]);
    let (_, none) = detail_fields(&v, "raw").unwrap();
    assert!(none.is_empty());
    let (untitled, _) = detail_fields(&parse(r#"{"data":{"show":{}}}"#), "sub").unwrap();
    assert_eq!(untitled, "(untitled)");
    match detail_fields(&parse(r#"{"data":{}}"#), "sub") {
        Err(ExtractError::Parse(m)) => assert_eq!(m, "show not found"),
        _ => panic!(),
    }
    let d = series_detail("id9", "N".to_string(), vec!["1".to_string(), "2".to_string()]);
    assert_eq!((d.id.as_str(), d.kind, d.seasons.len(), d.seasons[0].number), ("id9", Kind::Series, 1, 1));
    assert_eq!(d.seasons[0].episodes[1].number, "2");
    assert_eq!(d.seasons[0].episodes[1].id, "2");
    assert!(d.seasons[0].episodes[1].title.is_none());
    assert_eq!(series_detail("m", "M".into(), vec!["1".into()]).kind, Kind::Movie);
}
