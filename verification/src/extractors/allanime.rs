//! AllAnime extractor.
//!
//! AllAnime exposes a GraphQL API. Search and episode-list are plain JSON
//! via POST; episode sources arrive either plain or wrapped in an encrypted
//! `tobeparsed` field. Each `sourceUrl` is additionally XOR-obfuscated (see
//! [`super::decode`]) and points at a provider "clock" endpoint returning
//! the final `.m3u8`/`.mp4`.

use vstd::prelude::*;
use super::decode::{allanime_source, spec_allanime_source};
use super::{
    episode_view, options_view, option_view, result_view, results_view, Episode, ExtractError,
    Extractor, Kind, OptionView, ResultView, SearchResult, Season, SeriesDetail, StreamOption,
    USER_AGENT,
};
use crate::json::{
    json_of_bytes, json_of_text, parse_json_bytes, parse_json_text, lookup, spec_as_array, spec_as_bool, spec_as_i64, spec_as_str, spec_as_u64, spec_get, spec_pointer,
    JsonValue,
};
use crate::text::{
    pairs_view, strings_view, str_eq, chars_of, copy_range, find_chars, first_occurrence, occurs_at, parse_unsigned,
    parse_unsigned_chars, string_of, concat_str, contains_chars, replace_first, replace_first_chars,
};

verus! {

#[derive(Debug, Clone, Copy, PartialEq, Eq, Structural)]
pub struct AllAnime;

impl Extractor for AllAnime {
    open spec fn site_id(&self) -> Seq<char> {
        "allanime"@
    }

    open spec fn site_label(&self) -> Seq<char> {
        "AllAnime"@
    }

    open spec fn is_searchable(&self) -> bool {
        true
    }

    open spec fn is_available(&self) -> bool {
        true
    }

    fn id(&self) -> (r: &'static str) {
        "allanime"
    }

    fn label(&self) -> (r: &'static str) {
        "AllAnime"
    }

    fn searchable(&self) -> (r: bool) {
        true
    }

    fn available(&self) -> (r: bool) {
        true
    }
}


// These constants are the whole "contract" with AllAnime; if the site moves,
// this is where the fix lands. Referer AND Origin must both be
// youtu-chan.com — the API returns 403 Forbidden otherwise.
pub const API: &'static str = "https://api.allanime.day/api";

pub const CLOCK_BASE: &'static str = "https://allanime.day";

pub const REFERER: &'static str = "https://youtu-chan.com";

pub const SEARCH_GQL: &'static str = "query( $search: SearchInput $limit: Int $page: Int $translationType: VaildTranslationTypeEnumType $countryOrigin: VaildCountryOriginEnumType ) { shows( search: $search limit: $limit page: $page translationType: $translationType countryOrigin: $countryOrigin ) { edges { _id name thumbnail availableEpisodes airedStart __typename } } }";

pub const EPISODES_GQL: &'static str = "query ($showId: String!) { show( _id: $showId ) { _id name thumbnail availableEpisodesDetail } }";

pub const SOURCES_GQL: &'static str = "query ($showId: String!, $translationType: VaildTranslationTypeEnumType!, $episodeString: String!) { episode( showId: $showId translationType: $translationType episodeString: $episodeString ) { episodeString sourceUrls } }";

/// The part of `text` between the first `"tobeparsed":"` and the next `"`.
pub open spec fn spec_find_tobeparsed(text: Seq<char>) -> Option<Seq<char>> {
    let key = "\"tobeparsed\":\""@;
    match first_occurrence(text, key) {
        Some(i) => {
            let rest = text.subrange(i + key.len(), text.len() as int);
            match first_occurrence(rest, seq!['"']) {
                Some(j) => Some(rest.subrange(0, j)),
                None => None,
            }
        },
        None => None,
    }
}

/// Extract the base64 value of a `"tobeparsed":"..."` field, if present.
/// The value is base64 (contains no `"`), so scanning to the next quote is
/// safe.
pub fn find_tobeparsed(text: &str) -> (r: Option<String>)
    ensures
        match r {
            Some(s) => spec_find_tobeparsed(text@) == Some(s@),
            None => spec_find_tobeparsed(text@) is None,
        },
{
    let v = chars_of(text);
    let key = chars_of("\"tobeparsed\":\"");
    let start = match find_chars(&v, &key) {
        Some(i) => {
            assert(occurs_at(v@, key@, i as int));
            let n = v.len();
            i + key.len()
        },
        None => {
            return None;
        },
    };
    let rest = copy_range(&v, start, v.len());
    let quote = vec!['"'];
    assert(quote@ =~= seq!['"']);
    match find_chars(&rest, &quote) {
        Some(j) => {
            let out = copy_range(&rest, 0, j);
            Some(string_of(&out))
        },
        None => None,
    }
}

/// The leading decimal digits of `s`.
pub open spec fn digit_prefix(s: Seq<char>) -> Seq<char>
    decreases s.len(),
{
    if s.len() > 0 && '0' <= s[0] <= '9' {
        seq![s[0]] + digit_prefix(s.drop_first())
    } else {
        Seq::<char>::empty()
    }
}

/// Pull a pixel height out of strings like "1080", "1080p", "720P", "auto":
/// the leading digits, read as a `u32`.
pub open spec fn spec_parse_height(s: Seq<char>) -> Option<u32> {
    match parse_unsigned(digit_prefix(s), u32::MAX as nat) {
        Some(n) => Some(n as u32),
        None => None,
    }
}

/// Pull a pixel height out of strings like "1080", "1080p", "720P", "auto".
pub fn parse_height(s: &str) -> (r: Option<u32>)
    ensures
        r == spec_parse_height(s@),
{
    let v = chars_of(s);
    let mut i: usize = 0;
    assert(v@.subrange(0, v@.len() as int) =~= v@);
    assert(v@.subrange(0, 0) + digit_prefix(v@) =~= digit_prefix(v@));
    while i < v.len() && '0' <= v[i] && v[i] <= '9'
        invariant
            i <= v.len(),
            digit_prefix(v@) == v@.subrange(0, i as int) + digit_prefix(v@.subrange(i as int, v@.len() as int)),
        decreases v.len() - i,
    {
        let ghost rest = v@.subrange(i as int, v@.len() as int);
        assert(rest[0] == v@[i as int]);
        assert(rest.drop_first() =~= v@.subrange(i + 1, v@.len() as int));
        assert(v@.subrange(0, i as int) + (seq![v@[i as int]] + digit_prefix(rest.drop_first()))
            =~= v@.subrange(0, i + 1) + digit_prefix(rest.drop_first()));
        i += 1;
    }
    proof {
        let rest = v@.subrange(i as int, v@.len() as int);
        if i < v.len() {
            assert(rest[0] == v@[i as int]);
        }
        assert(digit_prefix(rest) == Seq::<char>::empty());
        assert(v@.subrange(0, i as int) + Seq::<char>::empty() =~= v@.subrange(0, i as int));
    }
    assert(v@.subrange(0, 0) =~= Seq::<char>::empty());
    let digits = copy_range(&v, 0, i);
    match parse_unsigned_chars(&digits, 0xffff_ffffu64) {
        Some(n) => Some(n as u32),
        None => None,
    }
}


/// The `(sourceUrl, sourceName)` pair that an object's own members give:
/// present when `sourceUrl` is a string, with an empty name unless
/// `sourceName` is a string.
pub open spec fn own_source(m: Seq<(String, JsonValue)>) -> Seq<(Seq<char>, Seq<char>)> {
    match lookup(m, "sourceUrl"@) {
        Some(JsonValue::Str(su)) => seq![
            (
                su@,
                match lookup(m, "sourceName"@) {
                    Some(JsonValue::Str(n)) => n@,
                    _ => Seq::<char>::empty(),
                },
            ),
        ],
        _ => Seq::empty(),
    }
}

/// Every `{sourceUrl, sourceName}` pair in a JSON value, depth first:
/// an object's own pair before those of its members, members and items in
/// document order.
pub open spec fn sources_in(v: JsonValue) -> Seq<(Seq<char>, Seq<char>)>
    decreases v,
{
    match v {
        JsonValue::Object(m) => own_source(m@) + sources_in_members(m@),
        JsonValue::Array(a) => sources_in_items(a@),
        _ => Seq::empty(),
    }
}

/// The pairs in the items of an array, in order.
pub open spec fn sources_in_items(a: Seq<JsonValue>) -> Seq<(Seq<char>, Seq<char>)>
    decreases a,
{
    if a.len() == 0 {
        Seq::empty()
    } else {
        sources_in_items(a.drop_last()) + sources_in(a.last())
    }
}

/// The pairs in the member values of an object, in order.
pub open spec fn sources_in_members(m: Seq<(String, JsonValue)>) -> Seq<(Seq<char>, Seq<char>)>
    decreases m,
{
    if m.len() == 0 {
        Seq::empty()
    } else {
        sources_in_members(m.drop_last()) + sources_in(m.last().1)
    }
}

/// Recursively collect every `{sourceUrl, sourceName}` pair, regardless of
/// how the (plain or decrypted) response is nested.
pub fn collect_sources(v: &JsonValue, out: &mut Vec<(String, String)>)
    ensures
        pairs_view(final(out)@) == pairs_view(old(out)@) + sources_in(*v),
    decreases *v,
{
    match v {
        JsonValue::Object(m) => {
            let ghost start = pairs_view(out@);
            match v.get("sourceUrl") {
                Some(JsonValue::Str(su)) => {
                    let name = match v.get("sourceName") {
                        Some(JsonValue::Str(n)) => n.clone(),
                        _ => String::new(),
                    };
                    out.push((su.clone(), name));
                },
                _ => {},
            }
            assert(pairs_view(out@) =~= start + own_source(m@));
            let mut i: usize = 0;
            assert(m@.subrange(0, 0) =~= Seq::<(String, JsonValue)>::empty());
            while i < m.len()
                invariant
                    *v == JsonValue::Object(*m),
                    i <= m.len(),
                    pairs_view(out@) == start + own_source(m@) + sources_in_members(m@.subrange(0, i as int)),
                decreases m.len() - i,
            {
                let ghost before = pairs_view(out@);
                assert((*v)->Object_0 == *m);
                assert(decreases_to!(*v => (*v)->Object_0));
                assert(decreases_to!(*m => m@));
                assert(decreases_to!(m@ => m@[i as int]));
                assert(decreases_to!(m@[i as int] => m@[i as int].1));
                assert(decreases_to!(*v => m@[i as int].1));
                collect_sources(&m[i].1, out);
                let ghost t = m@.subrange(0, i + 1);
                assert(t.drop_last() =~= m@.subrange(0, i as int));
                assert(t.last() == m@[i as int]);
                assert(pairs_view(out@) =~= start + own_source(m@) + sources_in_members(t));
                i += 1;
            }
            assert(m@.subrange(0, m@.len() as int) =~= m@);
        },
        JsonValue::Array(a) => {
            let ghost start = pairs_view(out@);
            let mut i: usize = 0;
            assert(a@.subrange(0, 0) =~= Seq::<JsonValue>::empty());
            assert(start + Seq::<(Seq<char>, Seq<char>)>::empty() =~= start);
            while i < a.len()
                invariant
                    *v == JsonValue::Array(*a),
                    i <= a.len(),
                    pairs_view(out@) == start + sources_in_items(a@.subrange(0, i as int)),
                decreases a.len() - i,
            {
                assert((*v)->Array_0 == *a);
                assert(decreases_to!(*v => (*v)->Array_0));
                assert(decreases_to!(*a => a@));
                assert(decreases_to!(a@ => a@[i as int]));
                assert(decreases_to!(*v => a@[i as int]));
                collect_sources(&a[i], out);
                let ghost t = a@.subrange(0, i + 1);
                assert(t.drop_last() =~= a@.subrange(0, i as int));
                assert(t.last() == a@[i as int]);
                assert(pairs_view(out@) =~= start + sources_in_items(t));
                i += 1;
            }
            assert(a@.subrange(0, a@.len() as int) =~= a@);
        },
        _ => {
            assert(pairs_view(out@) =~= pairs_view(out@) + Seq::<(Seq<char>, Seq<char>)>::empty());
        },
    }
}


/// Providers we know how to resolve, best first. Each `sourceUrls` entry
/// names its provider in `sourceName`; anything not listed here is skipped.
pub open spec fn provider_preference() -> Seq<Seq<char>> {
    seq!["Default"@, "Sak"@, "S-mp4"@, "Luf-mp4"@, "Kir"@, "Yt-mp4"@, "Vid-mp4"@, "Ok"@]
}

/// The provider at position `k` of the preference order.
fn provider_at(k: usize) -> (r: &'static str)
    requires
        k < 8,
    ensures
        r@ == provider_preference()[k as int],
{
    match k {
        0 => "Default",
        1 => "Sak",
        2 => "S-mp4",
        3 => "Luf-mp4",
        4 => "Kir",
        5 => "Yt-mp4",
        6 => "Vid-mp4",
        _ => "Ok",
    }
}

/// Whether a source pair comes from the provider `name`.
pub open spec fn from_provider(name: Seq<char>) -> spec_fn((Seq<char>, Seq<char>)) -> bool {
    |p: (Seq<char>, Seq<char>)| p.1 == name
}

/// The sources of the first `k` preferred providers, grouped by provider
/// in preference order, each group in the order it came in.
pub open spec fn ranked_sources(s: Seq<(Seq<char>, Seq<char>)>, k: nat) -> Seq<(Seq<char>, Seq<char>)>
    decreases k,
{
    if k == 0 {
        Seq::empty()
    } else {
        ranked_sources(s, (k - 1) as nat) + s.filter(from_provider(provider_preference()[k - 1]))
    }
}

/// Keep only providers we can resolve, ordered by preference (a stable
/// sort, so sources of one provider keep their order).
pub fn prefer_sources(sources: &Vec<(String, String)>) -> (r: Vec<(String, String)>)
    ensures
        pairs_view(r@) == ranked_sources(pairs_view(sources@), 8),
{
    broadcast use vstd::seq_lib::group_seq_properties;
    let ghost sv = pairs_view(sources@);
    let mut r: Vec<(String, String)> = Vec::new();
    let mut k: usize = 0;
    assert(pairs_view(r@) =~= ranked_sources(sv, 0));
    while k < 8
        invariant
            k <= 8,
            sv == pairs_view(sources@),
            pairs_view(r@) == ranked_sources(sv, k as nat),
        decreases 8 - k,
    {
        let name = provider_at(k);
        let ghost pred = from_provider(provider_preference()[k as int]);
        let ghost base = pairs_view(r@);
        let mut j: usize = 0;
        assert(sv.subrange(0, 0) =~= Seq::<(Seq<char>, Seq<char>)>::empty());
        assert(base + sv.subrange(0, 0).filter(pred) =~= base);
        while j < sources.len()
            invariant
                k < 8,
                j <= sources.len(),
                sv == pairs_view(sources@),
                name@ == provider_preference()[k as int],
                pred == from_provider(provider_preference()[k as int]),
                base == ranked_sources(sv, k as nat),
                pairs_view(r@) == base + sv.subrange(0, j as int).filter(pred),
            decreases sources.len() - j,
        {
            let ghost before = pairs_view(r@);
            let ghost t = sv.subrange(0, j + 1);
            assert(t =~= sv.subrange(0, j as int).push(sv[j as int]));
            proof {
                sv.subrange(0, j as int).lemma_filter_push(sv[j as int], pred);
            }
            assert(sv[j as int] == (sources@[j as int].0@, sources@[j as int].1@));
            if str_eq(sources[j].1.as_str(), name) {
                let item = (sources[j].0.clone(), sources[j].1.clone());
                r.push(item);
                assert(pred(sv[j as int]));
                assert(pairs_view(r@) =~= before.push(sv[j as int]));
                assert(base + t.filter(pred) =~= before.push(sv[j as int]));
            } else {
                assert(!pred(sv[j as int]));
                assert(pairs_view(r@) =~= before);
            }
            j += 1;
        }
        assert(sv.subrange(0, sources.len() as int) =~= sv);
        k += 1;
    }
    r
}

/// The sources of an episode-sources response that can be resolved, in
/// preference order; an error when the response names no source at all.
pub fn preferred_sources(v: &JsonValue) -> (r: Result<Vec<(String, String)>, ExtractError>)
    ensures
        sources_in(*v).len() == 0 <==> r is Err,
        r matches Err(e) ==> e matches ExtractError::Unavailable(m) && m@ == "no sources for this episode"@,
        r matches Ok(s) ==> pairs_view(s@) == ranked_sources(sources_in(*v), 8),
{
    let mut sources: Vec<(String, String)> = Vec::new();
    collect_sources(v, &mut sources);
    assert(pairs_view(sources@) =~= sources_in(*v));
    if sources.len() == 0 {
        return Err(ExtractError::Unavailable(String::from_str("no sources for this episode")));
    }
    Ok(prefer_sources(&sources))
}

/// The decoded provider paths of the given `sourceUrl`s, skipping those
/// that do not decode.
pub open spec fn decoded_paths(s: Seq<(Seq<char>, Seq<char>)>) -> Seq<Seq<char>>
    decreases s.len(),
{
    if s.len() == 0 {
        Seq::empty()
    } else {
        let rest = decoded_paths(s.drop_last());
        match spec_allanime_source(s.last().0) {
            Some(d) => rest.push(d),
            None => rest,
        }
    }
}

/// At most four sources are tried: the decoded paths of the first four.
pub fn clock_candidates(sources: &Vec<(String, String)>) -> (r: Vec<String>)
    ensures
        strings_view(r@) == decoded_paths(
            pairs_view(sources@).subrange(
                0,
                if sources@.len() < 4 {
                    sources@.len() as int
                } else {
                    4
                },
            ),
        ),
{
    let ghost sv = pairs_view(sources@);
    let n: usize = if sources.len() < 4 {
        sources.len()
    } else {
        4
    };
    let mut r: Vec<String> = Vec::new();
    let mut i: usize = 0;
    assert(sv.subrange(0, 0) =~= Seq::<(Seq<char>, Seq<char>)>::empty());
    assert(strings_view(r@) =~= Seq::<Seq<char>>::empty());
    while i < n
        invariant
            n <= sources.len(),
            i <= n,
            sv == pairs_view(sources@),
            strings_view(r@) == decoded_paths(sv.subrange(0, i as int)),
        decreases n - i,
    {
        let ghost before = strings_view(r@);
        let ghost t = sv.subrange(0, i + 1);
        assert(t.drop_last() =~= sv.subrange(0, i as int));
        assert(t.last() == sv[i as int]);
        assert(sv[i as int].0 == sources@[i as int].0@);
        match allanime_source(sources[i].0.as_str()) {
            Some(d) => {
                r.push(d);
                assert(strings_view(r@) =~= before.push(d@));
            },
            None => {
                assert(strings_view(r@) =~= before);
            },
        }
        i += 1;
    }
    r
}


/// The height that orders stream options: a fixed resolution, or 0 for a
/// master playlist.
pub open spec fn height_key(o: StreamOption) -> nat {
    match o.height {
        Some(h) => h as nat,
        None => 0,
    }
}

/// Where `x` goes in a list sorted by descending height: after every
/// element, counted from the end, whose height is at least its own.
pub open spec fn insert_pos(s: Seq<StreamOption>, x: StreamOption) -> int
    decreases s.len(),
{
    if s.len() == 0 {
        0
    } else if height_key(s.last()) >= height_key(x) {
        s.len() as int
    } else {
        insert_pos(s.drop_last(), x)
    }
}

/// `s` with `x` inserted at its place.
pub open spec fn insert_by_height(s: Seq<StreamOption>, x: StreamOption) -> Seq<StreamOption> {
    let p = insert_pos(s, x);
    s.subrange(0, p) + seq![x] + s.subrange(p, s.len() as int)
}

/// `s` sorted by descending height, keeping the order of options of equal
/// height (`sort_by` is stable).
pub open spec fn sort_by_height(s: Seq<StreamOption>) -> Seq<StreamOption>
    decreases s.len(),
{
    if s.len() == 0 {
        s
    } else {
        insert_by_height(sort_by_height(s.drop_last()), s.last())
    }
}

/// Whether `s` is ordered by descending height.
pub open spec fn height_descending(s: Seq<StreamOption>) -> bool {
    forall|i: int, j: int| 0 <= i < j < s.len() ==> height_key(#[trigger] s[i]) >= height_key(
        #[trigger] s[j],
    )
}

/// Whether an option has height `k`.
pub open spec fn of_height(k: nat) -> spec_fn(StreamOption) -> bool {
    |o: StreamOption| height_key(o) == k
}

proof fn lemma_insert_pos(s: Seq<StreamOption>, x: StreamOption)
    requires
        height_descending(s),
    ensures
        0 <= insert_pos(s, x) <= s.len(),
        forall|i: int| 0 <= i < insert_pos(s, x) ==> height_key(#[trigger] s[i]) >= height_key(x),
        forall|i: int|
            insert_pos(s, x) <= i < s.len() ==> height_key(#[trigger] s[i]) < height_key(x),
    decreases s.len(),
{
    if s.len() > 0 {
        let d = s.drop_last();
        assert(height_descending(d)) by {
            assert forall|i: int, j: int| 0 <= i < j < d.len() implies height_key(#[trigger] d[i])
                >= height_key(#[trigger] d[j]) by {
                assert(d[i] == s[i] && d[j] == s[j]);
            }
        }
        if height_key(s.last()) >= height_key(x) {
            assert forall|i: int| 0 <= i < s.len() implies height_key(#[trigger] s[i]) >= height_key(
                x,
            ) by {
                if i < s.len() - 1 {
                    assert(height_key(s[i]) >= height_key(s[s.len() - 1]));
                }
            }
        } else {
            lemma_insert_pos(d, x);
            assert forall|i: int| insert_pos(s, x) <= i < s.len() implies height_key(#[trigger] s[i])
                < height_key(x) by {
                if i < s.len() - 1 {
                    assert(s[i] == d[i]);
                }
            }
            assert forall|i: int| 0 <= i < insert_pos(s, x) implies height_key(#[trigger] s[i])
                >= height_key(x) by {
                assert(s[i] == d[i]);
            }
        }
    }
}

proof fn lemma_insert_by_height(s: Seq<StreamOption>, x: StreamOption)
    requires
        height_descending(s),
    ensures
        height_descending(insert_by_height(s, x)),
        insert_by_height(s, x).len() == s.len() + 1,
        forall|k: nat| #[trigger] insert_by_height(s, x).filter(of_height(k)) == if height_key(x) == k {
            s.filter(of_height(k)).push(x)
        } else {
            s.filter(of_height(k))
        },
{
    broadcast use vstd::seq_lib::group_seq_properties;
    lemma_insert_pos(s, x);
    let p = insert_pos(s, x);
    let a = s.subrange(0, p);
    let b = s.subrange(p, s.len() as int);
    let r = insert_by_height(s, x);
    assert(s =~= a + b);
    assert forall|i: int, j: int| 0 <= i < j < r.len() implies height_key(#[trigger] r[i]) >= height_key(
        #[trigger] r[j],
    ) by {
        if i < p {
            assert(r[i] == s[i]);
        } else if i == p {
            assert(r[i] == x);
        } else {
            assert(r[i] == s[i - 1]);
        }
        if j < p {
            assert(r[j] == s[j]);
        } else if j == p {
            assert(r[j] == x);
        } else {
            assert(r[j] == s[j - 1]);
        }
    }
    assert forall|k: nat| #[trigger] r.filter(of_height(k)) == if height_key(x) == k {
        s.filter(of_height(k)).push(x)
    } else {
        s.filter(of_height(k))
    } by {
        let f = of_height(k);
        Seq::filter_distributes_over_add(a + seq![x], b, f);
        Seq::filter_distributes_over_add(a, seq![x], f);
        Seq::filter_distributes_over_add(a, b, f);
        a.lemma_filter_push(x, f);
        assert(a + seq![x] =~= a.push(x));
        if height_key(x) == k {
            assert(b.filter(f) =~= Seq::<StreamOption>::empty()) by {
                b.lemma_all_neg_filter_empty(f);
                assert forall|i: int| 0 <= i < b.len() implies !f(b[i]) by {
                    assert(b[i] == s[p + i]);
                }
            }
            assert(s.filter(f) =~= a.filter(f));
            assert(r.filter(f) =~= a.filter(f).push(x));
        } else {
            assert(r.filter(f) =~= a.filter(f) + b.filter(f));
        }
    }
}

/// Sorting by height orders the options by descending height and keeps,
/// for every height, the options of that height in the order they came in
/// (and so keeps every option).
pub proof fn lemma_sort_by_height(s: Seq<StreamOption>)
    ensures
        height_descending(sort_by_height(s)),
        sort_by_height(s).len() == s.len(),
        forall|k: nat| #[trigger] sort_by_height(s).filter(of_height(k)) == s.filter(of_height(k)),
    decreases s.len(),
{
    broadcast use vstd::seq_lib::group_seq_properties;
    if s.len() > 0 {
        lemma_sort_by_height(s.drop_last());
        lemma_insert_by_height(sort_by_height(s.drop_last()), s.last());
        assert(s =~= s.drop_last().push(s.last()));
        assert forall|k: nat| #[trigger] sort_by_height(s).filter(of_height(k)) == s.filter(
            of_height(k),
        ) by {
            s.drop_last().lemma_filter_push(s.last(), of_height(k));
        }
    } else {
        assert(s.filter(of_height(0)) =~= s);
        assert forall|k: nat| #[trigger] sort_by_height(s).filter(of_height(k)) == s.filter(
            of_height(k),
        ) by {
            s.lemma_all_neg_filter_empty(of_height(k));
        }
    }
}


fn height_of(o: &StreamOption) -> (r: u32)
    ensures
        r as nat == height_key(*o),
{
    match o.height {
        Some(h) => h,
        None => 0,
    }
}

/// Stable sort of stream options by descending height.
pub fn sort_options_by_height(v: Vec<StreamOption>) -> (r: Vec<StreamOption>)
    ensures
        r@ == sort_by_height(v@),
{
    let ghost orig = v@;
    let mut rest = v;
    let mut out: Vec<StreamOption> = Vec::new();
    let ghost mut i: int = 0;
    assert(orig.subrange(0, 0) =~= Seq::<StreamOption>::empty());
    assert(orig.subrange(0, orig.len() as int) =~= orig);
    while rest.len() > 0
        invariant
            0 <= i <= orig.len(),
            rest@ == orig.subrange(i, orig.len() as int),
            out@ == sort_by_height(orig.subrange(0, i)),
        decreases rest.len(),
    {
        let x = rest.remove(0);
        assert(x == orig[i]);
        let k = height_of(&x);
        let mut j: usize = out.len();
        assert(out@.subrange(0, out@.len() as int) =~= out@);
        while j > 0 && height_of(&out[j - 1]) < k
            invariant
                j <= out.len(),
                k as nat == height_key(x),
                insert_pos(out@, x) == insert_pos(out@.subrange(0, j as int), x),
            decreases j,
        {
            let ghost t = out@.subrange(0, j as int);
            assert(t.drop_last() =~= out@.subrange(0, j - 1));
            assert(t.last() == out@[j - 1]);
            j -= 1;
        }
        proof {
            let t = out@.subrange(0, j as int);
            if j > 0 {
                assert(t.last() == out@[j - 1]);
            }
            assert(insert_pos(t, x) == j);
        }
        let ghost before = out@;
        out.insert(j, x);
        proof {
            let s2 = orig.subrange(0, i + 1);
            assert(s2.drop_last() =~= orig.subrange(0, i));
            assert(s2.last() == x);
            assert(out@ =~= insert_by_height(before, x));
            i = i + 1;
            assert(rest@ =~= orig.subrange(i, orig.len() as int));
        }
    }
    out
}

/// Consecutive options with the same URL collapsed to the first of them
/// (`dedup_by` on the URL).
pub open spec fn dedup_by_url(s: Seq<StreamOption>) -> Seq<StreamOption>
    decreases s.len(),
{
    if s.len() <= 1 {
        s
    } else {
        let d = dedup_by_url(s.drop_last());
        if d.last().url@ == s.last().url@ {
            d
        } else {
            d.push(s.last())
        }
    }
}

proof fn lemma_dedup_nonempty(s: Seq<StreamOption>)
    requires
        s.len() >= 1,
    ensures
        dedup_by_url(s).len() >= 1,
    decreases s.len(),
{
    if s.len() > 1 {
        lemma_dedup_nonempty(s.drop_last());
    }
}

/// After collapsing, no two neighbouring options share a URL.
pub proof fn lemma_dedup_by_url(s: Seq<StreamOption>)
    ensures
        forall|i: int|
            0 <= i < dedup_by_url(s).len() - 1 ==> (#[trigger] dedup_by_url(s)[i]).url@
                != dedup_by_url(s)[i + 1].url@,
    decreases s.len(),
{
    if s.len() > 1 {
        lemma_dedup_by_url(s.drop_last());
        lemma_dedup_nonempty(s.drop_last());
        let d = dedup_by_url(s.drop_last());
        let r = dedup_by_url(s);
        assert forall|i: int| 0 <= i < r.len() - 1 implies (#[trigger] r[i]).url@ != r[i + 1].url@ by {
            if i < d.len() - 1 {
                assert(r[i] == d[i] && r[i + 1] == d[i + 1]);
            } else {
                assert(r[i] == d.last());
            }
        }
    }
}

/// Collapse consecutive options that share a URL.
pub fn dedup_options_by_url(v: Vec<StreamOption>) -> (r: Vec<StreamOption>)
    ensures
        r@ == dedup_by_url(v@),
{
    let ghost orig = v@;
    let mut rest = v;
    let mut out: Vec<StreamOption> = Vec::new();
    let ghost mut i: int = 0;
    assert(orig.subrange(0, 0) =~= Seq::<StreamOption>::empty());
    assert(orig.subrange(0, orig.len() as int) =~= orig);
    while rest.len() > 0
        invariant
            0 <= i <= orig.len(),
            rest@ == orig.subrange(i, orig.len() as int),
            out@ == dedup_by_url(orig.subrange(0, i)),
            i >= 1 ==> out@.len() >= 1,
        decreases rest.len(),
    {
        let x = rest.remove(0);
        assert(x == orig[i]);
        let ghost s2 = orig.subrange(0, i + 1);
        assert(s2.drop_last() =~= orig.subrange(0, i));
        assert(s2.last() == x);
        let n = out.len();
        if n == 0 {
            out.push(x);
            assert(out@ =~= s2);
        } else if out[n - 1].url == x.url {
        } else {
            out.push(x);
        }
        proof {
            i = i + 1;
            assert(rest@ =~= orig.subrange(i, orig.len() as int));
        }
    }
    out
}

/// What resolving makes of the collected options: none is an error;
/// otherwise the options sorted by descending height with neighbouring
/// duplicates of a URL removed.
pub fn finish_options(options: Vec<StreamOption>) -> (r: Result<Vec<StreamOption>, ExtractError>)
    ensures
        options@.len() == 0 <==> r is Err,
        r matches Err(e) ==> e matches ExtractError::Unavailable(m) && m@
            == "no playable stream found for this episode"@,
        r matches Ok(v) ==> v@ == dedup_by_url(sort_by_height(options@)),
{
    if options.len() == 0 {
        return Err(
            ExtractError::Unavailable(String::from_str("no playable stream found for this episode")),
        );
    }
    let sorted = sort_options_by_height(options);
    Ok(dedup_options_by_url(sorted))
}

/// Whether some option is a single fixed-resolution stream.
pub open spec fn any_fixed_height(v: Seq<StreamOption>) -> bool {
    exists|i: int| 0 <= i < v.len() && (#[trigger] v[i]).height is Some
}

/// Whether some option already has a fixed height (the search for more
/// providers stops then).
pub fn has_fixed_height(v: &Vec<StreamOption>) -> (r: bool)
    ensures
        r == any_fixed_height(v@),
{
    let mut i: usize = 0;
    while i < v.len()
        invariant
            i <= v.len(),
            forall|j: int| 0 <= j < i ==> (#[trigger] v@[j]).height is None,
        decreases v.len() - i,
    {
        if v[i].height.is_some() {
            return true;
        }
        i += 1;
    }
    false
}

/// Takes in what one provider's clock endpoint gave: its links join the
/// options when it answered (a failed provider is skipped), and the search
/// stops (`true`) once some option has a fixed height.
pub fn absorb_clock(options: &mut Vec<StreamOption>, fetched: Result<Vec<StreamOption>, ExtractError>) -> (stop: bool)
    ensures
        final(options)@ == old(options)@ + match fetched {
            Ok(links) => links@,
            Err(_) => Seq::<StreamOption>::empty(),
        },
        stop == any_fixed_height(final(options)@),
{
    match fetched {
        Ok(mut links) => {
            options.append(&mut links);
        },
        Err(_) => {
            assert(options@ =~= old(options)@ + Seq::<StreamOption>::empty());
        },
    }
    has_fixed_height(options)
}

/// The URL of a provider's `clock.json` endpoint for a decoded path: an
/// absolute URL is kept; otherwise the path, with its first `/clock`
/// turned into `/clock.json`, is appended to [`CLOCK_BASE`].
pub open spec fn spec_clock_url(decoded: Seq<char>) -> Seq<char> {
    if decoded.len() >= 4 && decoded.subrange(0, 4) == "http"@ {
        decoded
    } else {
        CLOCK_BASE@ + replace_first(decoded, "/clock"@, "/clock.json"@)
    }
}

/// Turn a decoded provider path (`/apivtwo/clock?id=...`) into the URL of
/// its `clock.json` endpoint.
pub fn clock_url(decoded_path: &str) -> (r: String)
    ensures
        r@ == spec_clock_url(decoded_path@),
{
    proof {
        reveal_strlit("http");
    }
    let v = chars_of(decoded_path);
    if v.len() >= 4 && v[0] == 'h' && v[1] == 't' && v[2] == 't' && v[3] == 'p' {
        assert(v@.subrange(0, 4) =~= "http"@);
        return String::from_str(decoded_path);
    }
    proof {
        if v@.len() >= 4 && v@.subrange(0, 4) == "http"@ {
            assert(v@[0] == v@.subrange(0, 4)[0]);
            assert(v@[1] == v@.subrange(0, 4)[1]);
            assert(v@[2] == v@.subrange(0, 4)[2]);
            assert(v@[3] == v@.subrange(0, 4)[3]);
        }
    }
    let pat = chars_of("/clock");
    let rep = chars_of("/clock.json");
    let path = replace_first_chars(&v, &pat, &rep);
    let tail = string_of(&path);
    concat_str(CLOCK_BASE, tail.as_str())
}


/// The text of member `key` of `v`, if it is a string.
pub open spec fn text_member(v: JsonValue, key: Seq<char>) -> Option<Seq<char>> {
    match spec_get(v, key) {
        Some(x) => spec_as_str(x),
        None => None,
    }
}

fn text_member_exec<'a>(v: &'a JsonValue, key: &str) -> (r: Option<&'a String>)
    ensures
        match r {
            Some(s) => text_member(*v, key@) == Some(s@),
            None => text_member(*v, key@) is None,
        },
{
    match v.get(key) {
        Some(x) => x.as_str(),
        None => None,
    }
}

/// Whether `c` occurs in `s`.
pub open spec fn has_char(s: Seq<char>, c: char) -> bool {
    exists|i: int| 0 <= i < s.len() && s[i] == c
}

/// The stream option that one entry of a clock response's `links`
/// describes: entries without a string `link`, and provider templates
/// (a `{` in the link) are skipped; the HLS flag defaults to whether the
/// link names an `.m3u8`; the height is read from `resolutionStr`.
pub open spec fn link_option(l: JsonValue) -> Option<OptionView> {
    match text_member(l, "link"@) {
        Some(url) => if has_char(url, '{') {
            None
        } else {
            Some(
                (
                    match text_member(l, "resolutionStr"@) {
                        Some(r) => spec_parse_height(r),
                        None => None,
                    },
                    url,
                    match spec_get(l, "hls"@) {
                        Some(h) => match spec_as_bool(h) {
                            Some(b) => b,
                            None => exists|i: int| occurs_at(url, ".m3u8"@, i),
                        },
                        None => exists|i: int| occurs_at(url, ".m3u8"@, i),
                    },
                    Some(REFERER@),
                    seq![("User-Agent"@, USER_AGENT@)],
                ),
            )
        },
        None => None,
    }
}

/// A clock link's HLS flag is its own `hls` member whenever that member is
/// a JSON boolean, whatever the link's URL contains; only a link without a
/// boolean `hls` is taken as HLS by a `.m3u8` in its URL. The option's URL
/// is the link itself.
pub proof fn lemma_clock_hls_flag(l: JsonValue)
    requires
        link_option(l) is Some,
    ensures
        spec_get(l, "link"@) matches Some(JsonValue::Str(s)) && link_option(l).unwrap().1 == s@,
        forall|b: bool| spec_get(l, "hls"@) == Some(JsonValue::Bool(b)) ==> link_option(l).unwrap().2 == b,
        spec_get(l, "hls"@) is None ==> (link_option(l).unwrap().2 <==> exists|i: int|
            occurs_at(link_option(l).unwrap().1, ".m3u8"@, i)),
{
}

/// The stream options of all entries, in order.
pub open spec fn link_options(items: Seq<JsonValue>) -> Seq<OptionView>
    decreases items.len(),
{
    if items.len() == 0 {
        Seq::empty()
    } else {
        let rest = link_options(items.drop_last());
        match link_option(items.last()) {
            Some(o) => rest.push(o),
            None => rest,
        }
    }
}

fn link_option_exec(l: &JsonValue) -> (r: Option<StreamOption>)
    ensures
        match r {
            Some(o) => link_option(*l) == Some(option_view(o)),
            None => link_option(*l) is None,
        },
{
    let url = match text_member_exec(l, "link") {
        Some(u) => u,
        None => {
            return None;
        },
    };
    let uv = chars_of(url.as_str());
    let brace = vec!['{'];
    if contains_chars(&uv, &brace) {
        proof {
            let i = choose|i: int| occurs_at(uv@, brace@, i);
            assert(uv@.subrange(i, i + 1)[0] == uv@[i]);
        }
        return None;
    }
    proof {
        if has_char(uv@, '{') {
            let i = choose|i: int| 0 <= i < uv@.len() && uv@[i] == '{';
            assert(uv@.subrange(i, i + 1) =~= brace@);
            assert(occurs_at(uv@, brace@, i));
        }
    }
    let ext = chars_of(".m3u8");
    let is_hls = match l.get("hls") {
        Some(h) => match h.as_bool() {
            Some(b) => b,
            None => contains_chars(&uv, &ext),
        },
        None => contains_chars(&uv, &ext),
    };
    let height = match text_member_exec(l, "resolutionStr") {
        Some(r) => parse_height(r.as_str()),
        None => None,
    };
    let mut headers: Vec<(String, String)> = Vec::new();
    headers.push((String::from_str("User-Agent"), String::from_str(USER_AGENT)));
    let o = StreamOption {
        height,
        url: url.clone(),
        is_hls,
        referer: Some(String::from_str(REFERER)),
        headers,
    };
    assert(pairs_view(o.headers@) =~= seq![
        ("User-Agent"@, USER_AGENT@),
    ]);
    Some(o)
}

/// Stream options from a provider's `clock.json` response.
pub fn clock_options(body: &JsonValue) -> (r: Result<Vec<StreamOption>, ExtractError>)
    ensures
        match spec_get(*body, "links"@) {
            Some(ls) => match spec_as_array(ls) {
                Some(items) => r matches Ok(v) && options_view(v@) == link_options(items),
                None => r matches Err(ExtractError::Parse(m)) && m@ == "clock response had no links"@,
            },
            None => r matches Err(ExtractError::Parse(m)) && m@ == "clock response had no links"@,
        },
{
    let links = match body.get("links") {
        Some(ls) => match ls.as_array() {
            Some(a) => a,
            None => {
                return Err(ExtractError::Parse(String::from_str("clock response had no links")));
            },
        },
        None => {
            return Err(ExtractError::Parse(String::from_str("clock response had no links")));
        },
    };
    let mut out: Vec<StreamOption> = Vec::new();
    let mut i: usize = 0;
    assert(links@.subrange(0, 0) =~= Seq::<JsonValue>::empty());
    assert(options_view(out@) =~= Seq::<OptionView>::empty());
    while i < links.len()
        invariant
            i <= links.len(),
            options_view(out@) == link_options(links@.subrange(0, i as int)),
        decreases links.len() - i,
    {
        let ghost before = options_view(out@);
        let ghost t = links@.subrange(0, i + 1);
        assert(t.drop_last() =~= links@.subrange(0, i as int));
        assert(t.last() == links@[i as int]);
        match link_option_exec(&links[i]) {
            Some(o) => {
                out.push(o);
                assert(options_view(out@) =~= before.push(option_view(o)));
            },
            None => {},
        }
        i += 1;
    }
    assert(links@.subrange(0, links@.len() as int) =~= links@);
    Ok(out)
}


/// The search result that one entry of `/data/shows/edges` describes:
/// entries without a string `_id` or `name` are skipped; a title with at
/// most one subbed episode is a movie.
pub open spec fn edge_result(e: JsonValue) -> Option<ResultView> {
    match (text_member(e, "_id"@), text_member(e, "name"@)) {
        (Some(id), Some(title)) => {
            let sub_count: nat = match spec_pointer(e, "/availableEpisodes/sub"@) {
                Some(x) => match spec_as_u64(x) {
                    Some(n) => n as nat,
                    None => 0,
                },
                None => 0,
            };
            Some(
                (
                    id,
                    title,
                    text_member(e, "thumbnail"@),
                    if sub_count <= 1 {
                        Kind::Movie
                    } else {
                        Kind::Series
                    },
                    "allanime"@,
                    match spec_pointer(e, "/airedStart/year"@) {
                        Some(x) => match spec_as_i64(x) {
                            Some(y) => Some(y as i32),
                            None => None,
                        },
                        None => None,
                    },
                ),
            )
        },
        _ => None,
    }
}

/// The search results of all entries, in order.
pub open spec fn edge_results(items: Seq<JsonValue>) -> Seq<ResultView>
    decreases items.len(),
{
    if items.len() == 0 {
        Seq::empty()
    } else {
        let rest = edge_results(items.drop_last());
        match edge_result(items.last()) {
            Some(r) => rest.push(r),
            None => rest,
        }
    }
}

fn edge_result_exec(e: &JsonValue) -> (r: Option<SearchResult>)
    ensures
        match r {
            Some(x) => edge_result(*e) == Some(result_view(x)),
            None => edge_result(*e) is None,
        },
{
    let id = match text_member_exec(e, "_id") {
        Some(s) => s.clone(),
        None => {
            return None;
        },
    };
    let title = match text_member_exec(e, "name") {
        Some(s) => s.clone(),
        None => {
            return None;
        },
    };
    let sub_count: u64 = match e.pointer("/availableEpisodes/sub") {
        Some(x) => match x.as_u64() {
            Some(n) => n,
            None => 0,
        },
        None => 0,
    };
    let kind = if sub_count <= 1 {
        Kind::Movie
    } else {
        Kind::Series
    };
    let year: Option<i32> = match e.pointer("/airedStart/year") {
        Some(x) => match x.as_i64() {
            Some(y) => Some(y as i32),
            None => None,
        },
        None => None,
    };
    let poster = match text_member_exec(e, "thumbnail") {
        Some(s) => Some(s.clone()),
        None => None,
    };
    Some(SearchResult { id, title, poster, kind, site: String::from_str("allanime"), year })
}

/// What a search response holds: the entries of `/data/shows/edges`, or a
/// parse error when that is not an array.
pub open spec fn spec_search_results(v: JsonValue) -> Result<Seq<ResultView>, Seq<char>> {
    match spec_pointer(v, "/data/shows/edges"@) {
        Some(x) => match spec_as_array(x) {
            Some(items) => Ok(edge_results(items)),
            None => Err("no shows in response"@),
        },
        None => Err("no shows in response"@),
    }
}

/// The search results in a parsed search response.
pub fn search_results(v: &JsonValue) -> (r: Result<Vec<SearchResult>, ExtractError>)
    ensures
        match spec_search_results(*v) {
            Ok(rs) => r matches Ok(x) && results_view(x@) == rs,
            Err(m) => r matches Err(ExtractError::Parse(e)) && e@ == m,
        },
{
    let edges = match v.pointer("/data/shows/edges") {
        Some(x) => match x.as_array() {
            Some(a) => a,
            None => {
                return Err(ExtractError::Parse(String::from_str("no shows in response")));
            },
        },
        None => {
            return Err(ExtractError::Parse(String::from_str("no shows in response")));
        },
    };
    let mut out: Vec<SearchResult> = Vec::new();
    let mut i: usize = 0;
    assert(edges@.subrange(0, 0) =~= Seq::<JsonValue>::empty());
    assert(results_view(out@) =~= Seq::<ResultView>::empty());
    while i < edges.len()
        invariant
            i <= edges.len(),
            results_view(out@) == edge_results(edges@.subrange(0, i as int)),
        decreases edges.len() - i,
    {
        let ghost before = results_view(out@);
        let ghost t = edges@.subrange(0, i + 1);
        assert(t.drop_last() =~= edges@.subrange(0, i as int));
        assert(t.last() == edges@[i as int]);
        match edge_result_exec(&edges[i]) {
            Some(x) => {
                out.push(x);
                assert(results_view(out@) =~= before.push(result_view(x)));
            },
            None => {},
        }
        i += 1;
    }
    assert(edges@.subrange(0, edges@.len() as int) =~= edges@);
    Ok(out)
}

/// The string items of a JSON array, in order.
pub open spec fn string_items(items: Seq<JsonValue>) -> Seq<Seq<char>>
    decreases items.len(),
{
    if items.len() == 0 {
        Seq::empty()
    } else {
        let rest = string_items(items.drop_last());
        match spec_as_str(items.last()) {
            Some(s) => rest.push(s),
            None => rest,
        }
    }
}

/// What an episode-list response holds: the show's name (or
/// `(untitled)`) and the episode labels listed for the translation (none
/// when that list is missing), or a parse error when there is no show.
pub open spec fn spec_detail_fields(v: JsonValue, translation: Seq<char>) -> Result<
    (Seq<char>, Seq<Seq<char>>),
    Seq<char>,
> {
    match spec_pointer(v, "/data/show"@) {
        Some(show) => Ok(
            (
                match text_member(show, "name"@) {
                    Some(t) => t,
                    None => "(untitled)"@,
                },
                match spec_pointer(show, "/availableEpisodesDetail/"@ + translation) {
                    Some(x) => match spec_as_array(x) {
                        Some(items) => string_items(items),
                        None => Seq::empty(),
                    },
                    None => Seq::empty(),
                },
            ),
        ),
        None => Err("show not found"@),
    }
}

/// The show's title and its episode labels (as the API lists them) from a
/// parsed episode-list response.
pub fn detail_fields(v: &JsonValue, translation: &str) -> (r: Result<(String, Vec<String>), ExtractError>)
    ensures
        match spec_detail_fields(*v, translation@) {
            Ok((t, eps)) => r matches Ok((x, y)) && x@ == t && strings_view(y@) == eps,
            Err(m) => r matches Err(ExtractError::Parse(e)) && e@ == m,
        },
{
    let show = match v.pointer("/data/show") {
        Some(s) => s,
        None => {
            return Err(ExtractError::Parse(String::from_str("show not found")));
        },
    };
    let title = match text_member_exec(show, "name") {
        Some(t) => t.clone(),
        None => String::from_str("(untitled)"),
    };
    let path = concat_str("/availableEpisodesDetail/", translation);
    let mut eps: Vec<String> = Vec::new();
    match show.pointer(path.as_str()) {
        Some(x) => match x.as_array() {
            Some(items) => {
                let mut i: usize = 0;
                assert(items@.subrange(0, 0) =~= Seq::<JsonValue>::empty());
                assert(strings_view(eps@) =~= Seq::<Seq<char>>::empty());
                while i < items.len()
                    invariant
                        i <= items.len(),
                        strings_view(eps@) == string_items(items@.subrange(0, i as int)),
                    decreases items.len() - i,
                {
                    let ghost before = strings_view(eps@);
                    let ghost t = items@.subrange(0, i + 1);
                    assert(t.drop_last() =~= items@.subrange(0, i as int));
                    assert(t.last() == items@[i as int]);
                    match items[i].as_str() {
                        Some(s) => {
                            eps.push(s.clone());
                            assert(strings_view(eps@) =~= before.push(s@));
                        },
                        None => {},
                    }
                    i += 1;
                }
                assert(items@.subrange(0, items@.len() as int) =~= items@);
            },
            None => {},
        },
        None => {},
    }
    Ok((title, eps))
}

/// A series detail as plain values: id, title, kind, and per season its
/// number and episodes.
pub open spec fn detail_view(d: SeriesDetail) -> (
    Seq<char>,
    Seq<char>,
    Kind,
    Seq<(u32, Seq<(Seq<char>, Seq<char>, Option<Seq<char>>)>)>,
) {
    (
        d.id@,
        d.title@,
        d.kind,
        d.seasons@.map_values(
            |s: Season| (s.number, s.episodes@.map_values(|e: Episode| episode_view(e))),
        ),
    )
}

/// The detail of a show from its id, title and (ordered) episode labels:
/// AllAnime has no season concept, so there is always exactly one season,
/// numbered 1, whose episodes are keyed by their labels; a show with at most
/// one episode is a movie.
pub open spec fn spec_series_detail(id: Seq<char>, title: Seq<char>, eps: Seq<Seq<char>>) -> (
    Seq<char>,
    Seq<char>,
    Kind,
    Seq<(u32, Seq<(Seq<char>, Seq<char>, Option<Seq<char>>)>)>,
) {
    (
        id,
        title,
        if eps.len() <= 1 {
            Kind::Movie
        } else {
            Kind::Series
        },
        seq![(1u32, eps.map_values(|n: Seq<char>| (n, n, None::<Seq<char>>)))],
    )
}

/// Assemble a show's detail from its id, title and ordered episode labels.
pub fn series_detail(id: &str, title: String, eps: Vec<String>) -> (r: SeriesDetail)
    ensures
        detail_view(r) == spec_series_detail(id@, title@, strings_view(eps@)),
{
    let kind = if eps.len() <= 1 {
        Kind::Movie
    } else {
        Kind::Series
    };
    let ghost ev = strings_view(eps@);
    let n = eps.len();
    let mut episodes: Vec<Episode> = Vec::new();
    let mut rest = eps;
    let ghost mut i: int = 0;
    while rest.len() > 0
        invariant
            0 <= i <= n,
            n == ev.len(),
            strings_view(rest@) == ev.subrange(i, n as int),
            rest@.len() == n - i,
            episodes@.map_values(|e: Episode| episode_view(e)) == ev.subrange(0, i).map_values(
                |m: Seq<char>| (m, m, None::<Seq<char>>),
            ),
        decreases rest.len(),
    {
        let ghost before = episodes@;
        let ghost rv = rest@;
        let number = rest.remove(0);
        assert(number@ == ev[i]) by {
            assert(strings_view(rv)[0] == rv[0]@);
            assert(ev.subrange(i, n as int)[0] == ev[i]);
        }
        let e = Episode { id: number.clone(), number, title: None };
        assert(episode_view(e) == (ev[i], ev[i], None::<Seq<char>>));
        episodes.push(e);
        proof {
            assert(episodes@ == before.push(e));
            assert(episodes@.map_values(|e: Episode| episode_view(e)) =~= before.map_values(
                |e: Episode| episode_view(e),
            ).push(episode_view(e)));
            assert(ev.subrange(0, i + 1).map_values(|m: Seq<char>| (m, m, None::<Seq<char>>))
                =~= ev.subrange(0, i).map_values(|m: Seq<char>| (m, m, None::<Seq<char>>)).push(
                (ev[i], ev[i], None::<Seq<char>>),
            ));
            assert(rest@ =~= rv.subrange(1, rv.len() as int));
            assert forall|k: int| 0 <= k < rest@.len() implies strings_view(rest@)[k] == ev.subrange(
                i + 1,
                n as int,
            )[k] by {
                assert(rest@[k] == rv[k + 1]);
                assert(strings_view(rv)[k + 1] == ev.subrange(i, n as int)[k + 1]);
            }
            i = i + 1;
            assert(strings_view(rest@) =~= ev.subrange(i, n as int));
        }
    }
    let seasons = vec![Season { number: 1, episodes }];
    let r = SeriesDetail { id: String::from_str(id), title, kind, seasons };
    proof {
        assert(ev.subrange(0, n as int) =~= ev);
        assert(detail_view(r).3 =~= spec_series_detail(id@, title@, ev).3);
    }
    r
}

/// An API response body parsed as JSON (`serde_json`); a body that does not
/// parse is a parse error carrying the parser's message.
pub fn parse_response(text: &str) -> (r: Result<JsonValue, ExtractError>)
    ensures
        match json_of_text(text@) {
            Ok(v) => r matches Ok(x) && x == v,
            Err(m) => r matches Err(ExtractError::Parse(e)) && e@ == m,
        },
{
    match parse_json_text(text) {
        Ok(v) => Ok(v),
        Err(e) => Err(ExtractError::Parse(e)),
    }
}

/// The search results in a raw search response.
pub fn search_response(text: &str) -> (r: Result<Vec<SearchResult>, ExtractError>)
    ensures
        match json_of_text(text@) {
            Err(m) => r matches Err(ExtractError::Parse(e)) && e@ == m,
            Ok(v) => match spec_search_results(v) {
                Ok(rs) => r matches Ok(x) && results_view(x@) == rs,
                Err(m) => r matches Err(ExtractError::Parse(e)) && e@ == m,
            },
        },
{
    match parse_response(text) {
        Err(e) => Err(e),
        Ok(v) => search_results(&v),
    }
}

/// The show's title and episode labels in a raw episode-list response.
pub fn detail_response(text: &str, translation: &str) -> (r: Result<(String, Vec<String>), ExtractError>)
    ensures
        match json_of_text(text@) {
            Err(m) => r matches Err(ExtractError::Parse(e)) && e@ == m,
            Ok(v) => match spec_detail_fields(v, translation@) {
                Ok((t, eps)) => r matches Ok((x, y)) && x@ == t && strings_view(y@) == eps,
                Err(m) => r matches Err(ExtractError::Parse(e)) && e@ == m,
            },
        },
{
    match parse_response(text) {
        Err(e) => Err(e),
        Ok(v) => detail_fields(&v, translation),
    }
}

/// The preferred sources in a raw episode-sources response. Sources that
/// arrive as an encrypted `tobeparsed` blob cannot be read (this library
/// has no decryptor for it) and give a parse error; otherwise the body is
/// parsed as JSON and its sources ranked as in `preferred_sources`.
pub fn sources_response(text: &str) -> (r: Result<Vec<(String, String)>, ExtractError>)
    ensures
        spec_find_tobeparsed(text@) is Some ==> (r matches Err(ExtractError::Parse(e)) && e@
            == "could not decrypt sources"@),
        spec_find_tobeparsed(text@) is None ==> match json_of_text(text@) {
            Err(m) => r matches Err(ExtractError::Parse(e)) && e@ == m,
            Ok(v) => {
                &&& sources_in(v).len() == 0 <==> r is Err
                &&& r matches Err(e) ==> e matches ExtractError::Unavailable(m) && m@
                    == "no sources for this episode"@
                &&& r matches Ok(s) ==> pairs_view(s@) == ranked_sources(sources_in(v), 8)
            },
        },
{
    if find_tobeparsed(text).is_some() {
        return Err(ExtractError::Parse(String::from_str("could not decrypt sources")));
    }
    match parse_response(text) {
        Err(e) => Err(e),
        Ok(v) => preferred_sources(&v),
    }
}

/// Stream options from a provider's raw `clock.json` response body, parsed
/// as JSON (`serde_json`); a body that does not parse is a parse error
/// carrying the parser's message.
pub fn clock_response(body: &[u8]) -> (r: Result<Vec<StreamOption>, ExtractError>)
    ensures
        match json_of_bytes(body@) {
            Err(m) => r matches Err(ExtractError::Parse(e)) && e@ == m,
            Ok(v) => match spec_get(v, "links"@) {
                Some(ls) => match spec_as_array(ls) {
                    Some(items) => r matches Ok(x) && options_view(x@) == link_options(items),
                    None => r matches Err(ExtractError::Parse(m)) && m@ == "clock response had no links"@,
                },
                None => r matches Err(ExtractError::Parse(m)) && m@ == "clock response had no links"@,
            },
        },
{
    match parse_json_bytes(body) {
        Err(e) => Err(ExtractError::Parse(e)),
        Ok(v) => clock_options(&v),
    }
}

} // verus!
