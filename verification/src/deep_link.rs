//! `yt-plucker://` deep links handed to the program on its command line.

use vstd::prelude::*;
use crate::extractors::opt_text;
use crate::text::{
    chars_of, pairs_view, starts_with_str, str_eq, string_of, strip_start, trim, trim_chars,
    trim_start_in, CharClass,
};

verus! {

/// What a deep link asks the interface to do.
#[derive(Debug, Clone)]
pub struct DeepLinkPayload {
    pub action: String,
    pub url: String,
    pub quality: Option<String>,
}

/// The parts of a parsed URL that a deep link uses.
#[derive(Debug)]
pub struct UrlParts {
    pub path: String,
    pub host: Option<String>,
    /// The decoded query pairs, in order.
    pub query: Vec<(String, String)>,
}

/// What `url::Url::parse` makes of a text: `None` when it is no URL,
/// otherwise its path, host and decoded query pairs.
pub uninterp spec fn url_parts(input: Seq<char>) -> Option<(Seq<char>, Option<Seq<char>>, Seq<(Seq<char>, Seq<char>)>)>;

/// The plain values of URL parts.
pub open spec fn parts_view(p: UrlParts) -> (Seq<char>, Option<Seq<char>>, Seq<(Seq<char>, Seq<char>)>) {
    (p.path@, opt_text(p.host), pairs_view(p.query@))
}

/// Parses `input` with `url::Url::parse` and reads its `path()`,
/// `host_str()` and `query_pairs()`. The contract claims only that the
/// result is a function of the input, named [`url_parts`].
#[verifier::external_body]
fn parse_url(input: &str) -> (r: Option<UrlParts>)
    ensures
        match r {
            Some(p) => url_parts(input@) == Some(parts_view(p)),
            None => url_parts(input@) is None,
        },
{
    match url::Url::parse(input) {
        Ok(u) => Some(UrlParts {
            path: u.path().to_string(),
            host: u.host_str().map(|h| h.to_string()),
            query: u.query_pairs().map(|(k, v)| (k.into_owned(), v.into_owned())).collect(),
        }),
        Err(_) => None,
    }
}

/// The value of the last query pair named `key`.
pub open spec fn last_value(q: Seq<(Seq<char>, Seq<char>)>, key: Seq<char>) -> Option<Seq<char>>
    decreases q.len(),
{
    if q.len() == 0 {
        None
    } else if q.last().0 == key {
        Some(q.last().1)
    } else {
        last_value(q.drop_last(), key)
    }
}

/// What a parsed deep link asks for: the action is the path without its
/// leading slashes (`yt-plucker:///analyze?...`) or, when that is empty,
/// the host (`yt-plucker://analyze?...`); the URL and quality are the last
/// `url` and `quality` query values. No action or no URL, no payload.
pub open spec fn payload_of(parts: (Seq<char>, Option<Seq<char>>, Seq<(Seq<char>, Seq<char>)>)) -> Option<
    (Seq<char>, Seq<char>, Option<Seq<char>>),
> {
    let path_action = strip_start(parts.0, CharClass::Is('/'));
    let action = if path_action.len() == 0 {
        match parts.1 {
            Some(h) => h,
            None => Seq::empty(),
        }
    } else {
        path_action
    };
    let url = match last_value(parts.2, "url"@) {
        Some(u) => u,
        None => Seq::empty(),
    };
    if action.len() == 0 || url.len() == 0 {
        None
    } else {
        Some((action, url, last_value(parts.2, "quality"@)))
    }
}

/// The plain values of a payload.
pub open spec fn payload_view(p: DeepLinkPayload) -> (Seq<char>, Seq<char>, Option<Seq<char>>) {
    (p.action@, p.url@, opt_text(p.quality))
}

/// The payload of a parsed deep link.
pub fn deep_link_payload(parts: &UrlParts) -> (r: Option<DeepLinkPayload>)
    ensures
        match r {
            Some(p) => payload_of(parts_view(*parts)) == Some(payload_view(p)),
            None => payload_of(parts_view(*parts)) is None,
        },
{
    let path = chars_of(parts.path.as_str());
    let pa = trim_start_in(&path, CharClass::Is('/'));
    let action = if pa.len() == 0 {
        match &parts.host {
            Some(h) => h.clone(),
            None => String::new(),
        }
    } else {
        string_of(&pa)
    };
    if action.as_str().is_empty() {
        return None;
    }
    let mut url = String::new();
    let mut quality: Option<String> = None;
    let mut i: usize = 0;
    let ghost q = pairs_view(parts.query@);
    assert(q.subrange(0, 0) =~= Seq::<(Seq<char>, Seq<char>)>::empty());
    while i < parts.query.len()
        invariant
            i <= parts.query.len(),
            q == pairs_view(parts.query@),
            url@ == (match last_value(q.subrange(0, i as int), "url"@) {
                Some(u) => u,
                None => Seq::<char>::empty(),
            }),
            opt_text(quality) == last_value(q.subrange(0, i as int), "quality"@),
        decreases parts.query.len() - i,
    {
        let ghost t = q.subrange(0, i + 1);
        assert(t.drop_last() =~= q.subrange(0, i as int));
        assert(t.last() == (parts.query@[i as int].0@, parts.query@[i as int].1@));
        proof {
            reveal_strlit("url");
            reveal_strlit("quality");
            assert("url"@.len() != "quality"@.len());
            assert("url"@ != "quality"@);
        }
        if str_eq(parts.query[i].0.as_str(), "url") {
            url = parts.query[i].1.clone();
        } else if str_eq(parts.query[i].0.as_str(), "quality") {
            quality = Some(parts.query[i].1.clone());
        }
        i += 1;
    }
    assert(q.subrange(0, q.len() as int) =~= q);
    if url.as_str().is_empty() {
        return None;
    }
    Some(DeepLinkPayload { action, url, quality })
}

/// The scheme of deep links.
pub const DEEP_LINK_PREFIX: &'static str = "yt-plucker://";

/// What one command-line argument gives: an argument that, trimmed, starts
/// with `yt-plucker://` and parses as a URL gives the payload of that URL.
pub open spec fn spec_deep_link(arg: Seq<char>) -> Option<(Seq<char>, Seq<char>, Option<Seq<char>>)> {
    let t = trim(arg);
    if t.len() >= DEEP_LINK_PREFIX@.len() && t.subrange(0, DEEP_LINK_PREFIX@.len() as int)
        == DEEP_LINK_PREFIX@ {
        match url_parts(t) {
            Some(parts) => payload_of(parts),
            None => None,
        }
    } else {
        None
    }
}

/// The deep link in one command-line argument, if any.
pub fn deep_link_from_arg(arg: &str) -> (r: Option<DeepLinkPayload>)
    ensures
        match r {
            Some(p) => spec_deep_link(arg@) == Some(payload_view(p)),
            None => spec_deep_link(arg@) is None,
        },
{
    let v = chars_of(arg);
    let t = trim_chars(&v);
    if !starts_with_str(&t, DEEP_LINK_PREFIX) {
        return None;
    }
    let trimmed = string_of(&t);
    match parse_url(trimmed.as_str()) {
        Some(parts) => deep_link_payload(&parts),
        None => None,
    }
}

/// The plain values of a list of payloads.
pub open spec fn payloads_view(v: Seq<DeepLinkPayload>) -> Seq<(Seq<char>, Seq<char>, Option<Seq<char>>)> {
    v.map_values(|p: DeepLinkPayload| payload_view(p))
}

/// The deep links among the arguments, in order.
pub open spec fn spec_deep_links(argv: Seq<Seq<char>>) -> Seq<(Seq<char>, Seq<char>, Option<Seq<char>>)>
    decreases argv.len(),
{
    if argv.len() == 0 {
        Seq::empty()
    } else {
        let rest = spec_deep_links(argv.drop_last());
        match spec_deep_link(argv.last()) {
            Some(p) => rest.push(p),
            None => rest,
        }
    }
}

/// Scan the command line for `yt-plucker://` deep links: each one
/// (`yt-plucker://analyze?url=...&quality=...` or
/// `yt-plucker:///analyze?...`) with an action and a URL gives a payload.
pub fn deep_links(argv: &Vec<String>) -> (r: Vec<DeepLinkPayload>)
    ensures
        payloads_view(r@) == spec_deep_links(argv@.map_values(|a: String| a@)),
{
    let ghost av = argv@.map_values(|a: String| a@);
    let mut out: Vec<DeepLinkPayload> = Vec::new();
    let mut i: usize = 0;
    assert(av.subrange(0, 0) =~= Seq::<Seq<char>>::empty());
    assert(payloads_view(out@) =~= Seq::empty());
    while i < argv.len()
        invariant
            i <= argv.len(),
            av == argv@.map_values(|a: String| a@),
            payloads_view(out@) == spec_deep_links(av.subrange(0, i as int)),
        decreases argv.len() - i,
    {
        let ghost before = payloads_view(out@);
        let ghost t = av.subrange(0, i + 1);
        assert(t.drop_last() =~= av.subrange(0, i as int));
        assert(t.last() == argv@[i as int]@);
        match deep_link_from_arg(argv[i].as_str()) {
            Some(p) => {
                out.push(p);
                assert(payloads_view(out@) =~= before.push(payload_view(p)));
            },
            None => {},
        }
        i += 1;
    }
    assert(av.subrange(0, av.len() as int) =~= av);
    out
}

} // verus!
