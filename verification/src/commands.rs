//! What the metadata probe asks of the downloader, and what it makes of the
//! downloader's answer.

use vstd::prelude::*;
use crate::extractors::opt_text;
use crate::json::{json_of_bytes, parse_json_bytes, spec_as_array, spec_as_str, spec_as_u64, spec_get, JsonValue};
use crate::text::{
    chars_of, concat_str, contains_chars, occurs_at, seqs_of, split_lines, str_eq, string_of, strings_view,
    to_strings, lines,
};

verus! {

/// The text of member `key` of `v`, if it is a string.
pub open spec fn text_of(v: JsonValue, key: Seq<char>) -> Option<Seq<char>> {
    match spec_get(v, key) {
        Some(x) => spec_as_str(x),
        None => None,
    }
}

fn text_of_exec<'a>(v: &'a JsonValue, key: &str) -> (r: Option<&'a String>)
    ensures
        match r {
            Some(s) => text_of(*v, key@) == Some(s@),
            None => text_of(*v, key@) is None,
        },
{
    match v.get(key) {
        Some(x) => x.as_str(),
        None => None,
    }
}

/// The downloader's arguments for a metadata probe: the JSON dump without
/// warnings, a flat listing for playlists (a full dump of a large playlist
/// takes minutes; flat is instant) or a single video otherwise, login
/// cookies from a browser when one is named (other than `none`), and the
/// URL.
pub open spec fn spec_metadata_args(url: Seq<char>, playlist_mode: bool, cookies_from_browser: Option<Seq<char>>) -> Seq<Seq<char>> {
    seq!["-J"@, "--no-warnings"@] + (if playlist_mode {
        seq!["--flat-playlist"@, "--yes-playlist"@]
    } else {
        seq!["--no-playlist"@]
    }) + (match cookies_from_browser {
        Some(b) => if b.len() != 0 && b != "none"@ {
            seq!["--cookies-from-browser"@, b]
        } else {
            Seq::empty()
        },
        None => Seq::empty(),
    }) + seq![url]
}

/// The downloader's arguments for a metadata probe of `url`.
pub fn metadata_args(url: &str, playlist_mode: bool, cookies_from_browser: Option<&str>) -> (r: Vec<String>)
    ensures
        strings_view(r@) == spec_metadata_args(
            url@,
            playlist_mode,
            match cookies_from_browser {
                Some(b) => Some(b@),
                None => None,
            },
        ),
{
    let mut args = to_strings(&["-J", "--no-warnings"]);
    let mut mode = if playlist_mode {
        to_strings(&["--flat-playlist", "--yes-playlist"])
    } else {
        to_strings(&["--no-playlist"])
    };
    let ghost a0 = strings_view(args@);
    let ghost m0 = strings_view(mode@);
    args.append(&mut mode);
    assert(strings_view(args@) =~= a0 + m0);
    let ghost a1 = strings_view(args@);
    let mut cookie: Vec<String> = match cookies_from_browser {
        Some(b) => {
            if !b.is_empty() && !str_eq(b, "none") {
                to_strings(&["--cookies-from-browser", b])
            } else {
                Vec::new()
            }
        },
        None => Vec::new(),
    };
    let ghost c0 = strings_view(cookie@);
    assert(c0 == (match cookies_from_browser {
        Some(b) => if b@.len() != 0 && b@ != "none"@ {
            seq!["--cookies-from-browser"@, b@]
        } else {
            Seq::<Seq<char>>::empty()
        },
        None => Seq::<Seq<char>>::empty(),
    }));
    args.append(&mut cookie);
    assert(strings_view(args@) =~= a1 + c0);
    let ghost a2 = strings_view(args@);
    args.push(String::from_str(url));
    assert(strings_view(args@) =~= a2 + seq![url@]);
    args
}

/// The first line of the downloader's error output that mentions `ERROR`,
/// or a generic message.
pub open spec fn spec_probe_error(stderr: Seq<char>) -> Seq<char> {
    let ls = lines(stderr);
    if exists|i: int| 0 <= i < ls.len() && exists|j: int| occurs_at(#[trigger] ls[i], "ERROR"@, j) {
        let i = choose|i: int|
            0 <= i < ls.len() && (exists|j: int| occurs_at(#[trigger] ls[i], "ERROR"@, j)) && forall|k: int|
                0 <= k < i ==> !exists|j: int| occurs_at(#[trigger] ls[k], "ERROR"@, j);
        ls[i]
    } else {
        "yt-dlp could not read this URL"@
    }
}

/// The message shown when a metadata probe fails.
pub fn probe_error(stderr: &str) -> (r: String)
    ensures
        r@ == spec_probe_error(stderr@),
{
    let v = chars_of(stderr);
    let ls = split_lines(&v);
    let key = chars_of("ERROR");
    let ghost lv = seqs_of(ls@);
    let mut i: usize = 0;
    while i < ls.len()
        invariant
            i <= ls.len(),
            lv == seqs_of(ls@),
            lv == lines(stderr@),
            key@ == "ERROR"@,
            forall|k: int| 0 <= k < i ==> !exists|j: int| occurs_at(#[trigger] lv[k], "ERROR"@, j),
        decreases ls.len() - i,
    {
        assert(lv[i as int] == ls@[i as int]@);
        if contains_chars(&ls[i], &key) {
            proof {
                assert(exists|j: int| occurs_at(lv[i as int], "ERROR"@, j));
                let w = choose|w: int|
                    0 <= w < lv.len() && (exists|j: int| occurs_at(#[trigger] lv[w], "ERROR"@, j)) && forall|k: int|
                        0 <= k < w ==> !exists|j: int| occurs_at(#[trigger] lv[k], "ERROR"@, j);
                assert(0 <= i < lv.len() && (exists|j: int| occurs_at(lv[i as int], "ERROR"@, j)));
                if w < i {
                } else if w > i {
                }
            }
            return string_of(&ls[i]);
        }
        i += 1;
    }
    String::from_str("yt-dlp could not read this URL")
}


/// What the metadata probe tells the interface (the video duration, a
/// floating-point value, is read by the caller).
#[derive(Debug)]
pub struct Metadata {
    /// `video` or `playlist`.
    pub kind: String,
    pub title: String,
    pub thumbnail: Option<String>,
    /// The available heights, highest first, each once.
    pub heights: Vec<u32>,
    pub entry_count: Option<u64>,
    /// Titles of the first entries of a playlist.
    pub entries: Vec<String>,
    /// The downloader's extractor, e.g. "Youtube", "Twitter".
    pub source: String,
}

/// The extractor that produced a dump: `extractor_key`, else `extractor`,
/// else empty.
pub open spec fn spec_extractor_of(v: JsonValue) -> Seq<char> {
    match text_of(v, "extractor_key"@) {
        Some(s) => s,
        None => match text_of(v, "extractor"@) {
            Some(s) => s,
            None => Seq::empty(),
        },
    }
}

/// The name of the extractor that produced a dump.
pub fn extractor_of(v: &JsonValue) -> (r: String)
    ensures
        r@ == spec_extractor_of(*v),
{
    match text_of_exec(v, "extractor_key") {
        Some(s) => s.clone(),
        None => match text_of_exec(v, "extractor") {
            Some(s) => s.clone(),
            None => String::new(),
        },
    }
}

/// The `url` of the last entry of `thumbnails`.
pub open spec fn spec_last_thumbnail(v: JsonValue) -> Option<Seq<char>> {
    match spec_get(v, "thumbnails"@) {
        Some(t) => match spec_as_array(t) {
            Some(a) => if a.len() > 0 {
                text_of(a.last(), "url"@)
            } else {
                None
            },
            None => None,
        },
        None => None,
    }
}

/// The URL of the last (largest) thumbnail of a dump.
pub fn last_thumbnail(v: &JsonValue) -> (r: Option<String>)
    ensures
        opt_text(r) == spec_last_thumbnail(*v),
{
    let t = match v.get("thumbnails") {
        Some(t) => t,
        None => {
            return None;
        },
    };
    let a = match t.as_array() {
        Some(a) => a,
        None => {
            return None;
        },
    };
    if a.len() == 0 {
        return None;
    }
    match text_of_exec(&a[a.len() - 1], "url") {
        Some(s) => Some(s.clone()),
        None => None,
    }
}

/// The heights that the formats of a dump list, in order (each height
/// value cut to 32 bits).
pub open spec fn format_heights(items: Seq<JsonValue>) -> Seq<u32>
    decreases items.len(),
{
    if items.len() == 0 {
        Seq::empty()
    } else {
        let rest = format_heights(items.drop_last());
        match spec_get(items.last(), "height"@) {
            Some(h) => match spec_as_u64(h) {
                Some(n) => rest.push(n as u32),
                None => rest,
            },
            None => rest,
        }
    }
}

/// Whether `s` is strictly decreasing.
pub open spec fn strictly_descending(s: Seq<u32>) -> bool {
    forall|i: int, j: int| 0 <= i < j < s.len() ==> s[i] > s[j]
}

/// The distinct values of `hs`, highest first.
pub open spec fn is_distinct_descending(r: Seq<u32>, hs: Seq<u32>) -> bool {
    strictly_descending(r) && forall|x: u32| r.contains(x) <==> hs.contains(x)
}

/// The distinct values of `hs`, highest first (sort, dedup, reverse).
pub fn distinct_descending(hs: &Vec<u32>) -> (r: Vec<u32>)
    ensures
        is_distinct_descending(r@, hs@),
{
    let mut r: Vec<u32> = Vec::new();
    let mut i: usize = 0;
    while i < hs.len()
        invariant
            i <= hs.len(),
            strictly_descending(r@),
            forall|x: u32| r@.contains(x) <==> hs@.subrange(0, i as int).contains(x),
        decreases hs.len() - i,
    {
        let h = hs[i];
        let mut p: usize = 0;
        while p < r.len() && r[p] > h
            invariant
                p <= r.len(),
                forall|k: int| 0 <= k < p ==> r@[k] > h,
            decreases r.len() - p,
        {
            p += 1;
        }
        let ghost old_r = r@;
        if p < r.len() && r[p] == h {
            proof {
                assert(old_r[p as int] == h);
                assert(old_r.contains(h));
                assert forall|x: u32| r@.contains(x) <==> (old_r.contains(x) || x == h) by {}
            }
        } else {
            r.insert(p, h);
            proof {
                assert forall|a: int, b: int| 0 <= a < b < r@.len() implies r@[a] > r@[b] by {
                    if b < p {
                        assert(r@[a] == old_r[a] && r@[b] == old_r[b]);
                    } else if b == p {
                        assert(r@[a] == old_r[a]);
                    } else if a < p {
                        assert(r@[a] == old_r[a] && r@[b] == old_r[b - 1]);
                        assert(old_r[b - 1] <= h || b - 1 >= p);
                        if b - 1 >= p {
                            assert(old_r[p as int] < h);
                            if b - 1 > p {
                                assert(old_r[p as int] > old_r[b - 1]);
                            }
                        }
                    } else if a == p {
                        assert(r@[b] == old_r[b - 1]);
                        assert(old_r[p as int] < h);
                        if b - 1 > p {
                            assert(old_r[p as int] > old_r[b - 1]);
                        }
                    } else {
                        assert(r@[a] == old_r[a - 1] && r@[b] == old_r[b - 1]);
                    }
                }
                assert forall|x: u32| r@.contains(x) <==> (old_r.contains(x) || x == h) by {
                    if r@.contains(x) {
                        let k = choose|k: int| 0 <= k < r@.len() && r@[k] == x;
                        if k < p {
                            assert(old_r[k] == x);
                        } else if k > p {
                            assert(old_r[k - 1] == x);
                        }
                    }
                    if old_r.contains(x) {
                        let k = choose|k: int| 0 <= k < old_r.len() && old_r[k] == x;
                        if k < p {
                            assert(r@[k] == x);
                        } else {
                            assert(r@[k + 1] == x);
                        }
                    }
                    if x == h {
                        assert(r@[p as int] == h);
                    }
                }
            }
        }
        proof {
            let t = hs@.subrange(0, i + 1);
            assert(t =~= hs@.subrange(0, i as int).push(h));
            assert forall|x: u32| t.contains(x) <==> (hs@.subrange(0, i as int).contains(x) || x == h) by {
                if t.contains(x) {
                    let k = choose|k: int| 0 <= k < t.len() && t[k] == x;
                    if k < i {
                        assert(hs@.subrange(0, i as int)[k] == x);
                    }
                }
                if hs@.subrange(0, i as int).contains(x) {
                    let k = choose|k: int| 0 <= k < i && hs@.subrange(0, i as int)[k] == x;
                    assert(t[k] == x);
                }
                if x == h {
                    assert(t[i as int] == h);
                }
            }
            assert forall|x: u32| r@.contains(x) <==> t.contains(x) by {
                assert(r@.contains(x) <==> (old_r.contains(x) || x == h));
                assert(old_r.contains(x) <==> hs@.subrange(0, i as int).contains(x));
                assert(t.contains(x) <==> (hs@.subrange(0, i as int).contains(x) || x == h));
            }
        }
        i += 1;
    }
    assert(hs@.subrange(0, hs@.len() as int) =~= hs@);
    r
}


/// Whether a dump describes a playlist.
pub open spec fn is_playlist_dump(v: JsonValue) -> bool {
    text_of(v, "_type"@) == Some("playlist"@)
}

/// The items of array member `key`, none when it is not an array.
pub open spec fn array_member(v: JsonValue, key: Seq<char>) -> Seq<JsonValue> {
    match spec_get(v, key) {
        Some(x) => match spec_as_array(x) {
            Some(a) => a,
            None => Seq::empty(),
        },
        None => Seq::empty(),
    }
}

/// The title of a playlist entry, `(untitled)` when it has none.
pub open spec fn entry_title(e: JsonValue) -> Seq<char> {
    match text_of(e, "title"@) {
        Some(t) => t,
        None => "(untitled)"@,
    }
}

/// The titles of the given entries.
pub open spec fn titles_of(entries: Seq<JsonValue>) -> Seq<Seq<char>> {
    entries.map_values(|e: JsonValue| entry_title(e))
}

/// The titles of the first 500 entries.
pub open spec fn entry_titles(entries: Seq<JsonValue>) -> Seq<Seq<char>> {
    titles_of(entries.subrange(0, if entries.len() < 500 { entries.len() as int } else { 500 }))
}

/// What a dump says of a playlist: kind, title (`Playlist` when missing),
/// thumbnail (its own, else the first entry's), entry count (as reported,
/// else the number of entries), the titles of the first 500 entries, and
/// the extractor; no heights.
pub open spec fn playlist_metadata(v: JsonValue, r: Metadata) -> bool {
    let entries = array_member(v, "entries"@);
    &&& r.kind@ == "playlist"@
    &&& r.title@ == (match text_of(v, "title"@) {
        Some(t) => t,
        None => "Playlist"@,
    })
    &&& opt_text(r.thumbnail) == (match spec_last_thumbnail(v) {
        Some(t) => Some(t),
        None => if entries.len() > 0 {
            spec_last_thumbnail(entries[0])
        } else {
            None
        },
    })
    &&& r.heights@.len() == 0
    &&& r.entry_count == Some(
        match spec_get(v, "playlist_count"@) {
            Some(c) => match spec_as_u64(c) {
                Some(n) => n,
                None => entries.len() as u64,
            },
            None => entries.len() as u64,
        },
    )
    &&& strings_view(r.entries@) == entry_titles(entries)
    &&& r.source@ == spec_extractor_of(v)
}

/// What a dump says of a single video: kind, title (`(untitled)` when
/// missing), thumbnail (`thumbnail`, else the last of `thumbnails`), the
/// distinct heights of its formats highest first, and the extractor; no
/// entries.
pub open spec fn video_metadata(v: JsonValue, r: Metadata) -> bool {
    &&& r.kind@ == "video"@
    &&& r.title@ == (match text_of(v, "title"@) {
        Some(t) => t,
        None => "(untitled)"@,
    })
    &&& opt_text(r.thumbnail) == (match text_of(v, "thumbnail"@) {
        Some(t) => Some(t),
        None => spec_last_thumbnail(v),
    })
    &&& is_distinct_descending(r.heights@, format_heights(array_member(v, "formats"@)))
    &&& r.entry_count is None
    &&& r.entries@.len() == 0
    &&& r.source@ == spec_extractor_of(v)
}

/// The metadata's title is the dump's own `title` whenever that is a JSON
/// string, for a playlist as for a single video; only a dump without a
/// string title gets the default (`Playlist` for a playlist, `(untitled)`
/// for a video).
pub proof fn lemma_title_from_dump(v: JsonValue, r: Metadata)
    requires
        if is_playlist_dump(v) {
            playlist_metadata(v, r)
        } else {
            video_metadata(v, r)
        },
    ensures
        spec_get(v, "title"@) matches Some(JsonValue::Str(t)) ==> r.title@ == t@,
        spec_get(v, "title"@) is None ==> r.title@ == (if is_playlist_dump(v) {
            "Playlist"@
        } else {
            "(untitled)"@
        }),
{
}

fn array_member_exec<'a>(v: &'a JsonValue, key: &str) -> (r: Option<&'a Vec<JsonValue>>)
    ensures
        match r {
            Some(a) => array_member(*v, key@) == a@,
            None => array_member(*v, key@) == Seq::<JsonValue>::empty(),
        },
{
    match v.get(key) {
        Some(x) => x.as_array(),
        None => None,
    }
}

/// The metadata in the downloader's JSON dump of a URL.
pub fn metadata_from_dump(v: &JsonValue) -> (r: Metadata)
    ensures
        if is_playlist_dump(*v) {
            playlist_metadata(*v, r)
        } else {
            video_metadata(*v, r)
        },
{
    proof {
        reveal_strlit("playlist");
    }
    let is_playlist = match text_of_exec(v, "_type") {
        Some(t) => str_eq(t.as_str(), "playlist"),
        None => false,
    };
    if is_playlist {
        let empty: Vec<JsonValue> = Vec::new();
        let entries: &Vec<JsonValue> = match array_member_exec(v, "entries") {
            Some(a) => a,
            None => &empty,
        };
        let n: usize = if entries.len() < 500 {
            entries.len()
        } else {
            500
        };
        let mut titles: Vec<String> = Vec::new();
        let mut i: usize = 0;
        while i < n
            invariant
                n <= entries.len(),
                n == (if entries@.len() < 500 { entries@.len() } else { 500 }),
                i <= n,
                titles@.len() == i,
                strings_view(titles@) == titles_of(entries@.subrange(0, i as int)),
            decreases n - i,
        {
            let ghost before = titles@;
            let t = match text_of_exec(&entries[i], "title") {
                Some(t) => t.clone(),
                None => String::from_str("(untitled)"),
            };
            let ghost tv = t@;
            assert(tv == entry_title(entries@[i as int]));
            titles.push(t);
            assert forall|j: int| 0 <= j < i + 1 implies #[trigger] strings_view(titles@)[j]
                == titles_of(entries@.subrange(0, i + 1))[j] by {
                if j < i {
                    assert(titles@[j] == before[j]);
                    assert(strings_view(before)[j] == titles_of(entries@.subrange(0, i as int))[j]);
                } else {
                    assert(titles@[j]@ == tv);
                }
            }
            assert(strings_view(titles@) =~= titles_of(entries@.subrange(0, i + 1)));
            i += 1;
        }
        let count: u64 = match v.get("playlist_count") {
            Some(c) => match c.as_u64() {
                Some(k) => k,
                None => entries.len() as u64,
            },
            None => entries.len() as u64,
        };
        let thumbnail = match last_thumbnail(v) {
            Some(t) => Some(t),
            None => if entries.len() > 0 {
                last_thumbnail(&entries[0])
            } else {
                None
            },
        };
        let title = match text_of_exec(v, "title") {
            Some(t) => t.clone(),
            None => String::from_str("Playlist"),
        };
        Metadata {
            kind: String::from_str("playlist"),
            title,
            thumbnail,
            heights: Vec::new(),
            entry_count: Some(count),
            entries: titles,
            source: extractor_of(v),
        }
    } else {
        let mut hs: Vec<u32> = Vec::new();
        match array_member_exec(v, "formats") {
            Some(fs) => {
                let mut i: usize = 0;
                assert(fs@.subrange(0, 0) =~= Seq::<JsonValue>::empty());
                while i < fs.len()
                    invariant
                        i <= fs.len(),
                        hs@ == format_heights(fs@.subrange(0, i as int)),
                    decreases fs.len() - i,
                {
                    let ghost t = fs@.subrange(0, i + 1);
                    assert(t.drop_last() =~= fs@.subrange(0, i as int));
                    assert(t.last() == fs@[i as int]);
                    match fs[i].get("height") {
                        Some(h) => match h.as_u64() {
                            Some(k) => {
                                hs.push(#[verifier::truncate] (k as u32));
                            },
                            None => {},
                        },
                        None => {},
                    }
                    i += 1;
                }
                assert(fs@.subrange(0, fs@.len() as int) =~= fs@);
            },
            None => {},
        }
        let heights = distinct_descending(&hs);
        let thumbnail = match text_of_exec(v, "thumbnail") {
            Some(t) => Some(t.clone()),
            None => last_thumbnail(v),
        };
        let title = match text_of_exec(v, "title") {
            Some(t) => t.clone(),
            None => String::from_str("(untitled)"),
        };
        Metadata {
            kind: String::from_str("video"),
            title,
            thumbnail,
            heights,
            entry_count: None,
            entries: Vec::new(),
            source: extractor_of(v),
        }
    }
}

/// What a metadata probe comes to, from the downloader's exit status, its
/// standard output and its standard error: a failed run gives the probe
/// error read from stderr; otherwise stdout is parsed as JSON
/// (`serde_json`), and output that does not parse is reported with the
/// parser's message.
pub fn metadata_from_probe(success: bool, stdout: &[u8], stderr: &str) -> (r: Result<Metadata, String>)
    ensures
        !success ==> (r matches Err(e) && e@ == spec_probe_error(stderr@)),
        success ==> match json_of_bytes(stdout@) {
            Err(m) => r matches Err(e) && e@ == "unexpected yt-dlp output: "@ + m,
            Ok(v) => r matches Ok(meta) && (if is_playlist_dump(v) {
                playlist_metadata(v, meta)
            } else {
                video_metadata(v, meta)
            }),
        },
{
    if !success {
        return Err(probe_error(stderr));
    }
    match parse_json_bytes(stdout) {
        Err(e) => Err(concat_str("unexpected yt-dlp output: ", e.as_str())),
        Ok(v) => Ok(metadata_from_dump(&v)),
    }
}

} // verus!
