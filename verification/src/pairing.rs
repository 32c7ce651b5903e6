//! The decisions of the small HTTP server that accepts URL submissions
//! from the browser extension: reading the request head, routing, checking
//! a submission, and writing the response.

use vstd::prelude::*;
use vstd::utf8::encode_utf8;
use crate::json::{json_of_text, parse_json_text, spec_as_bool, spec_get, JsonValue};
use crate::commands::text_of;
use crate::text::{
    chars_of, concat_str, copy_range, decimal, decimal_chars, parse_unsigned, parse_unsigned_chars,
    seqs_of, split_words, str_eq, string_of, trim, trim_chars, words,
};

verus! {

/// The fixed localhost port the extension looks for.
pub const PAIRING_PORT: u16 = 19877;

/// The method and path of a request line: its first two white-space
/// separated words; `None` when it has fewer.
pub open spec fn spec_request_target(line: Seq<char>) -> Option<(Seq<char>, Seq<char>)> {
    let w = words(trim(line));
    if w.len() < 2 {
        None
    } else {
        Some((w[0], w[1]))
    }
}

/// The method and path of an HTTP request line.
pub fn request_target(line: &str) -> (r: Option<(String, String)>)
    ensures
        match r {
            Some((m, p)) => spec_request_target(line@) == Some((m@, p@)),
            None => spec_request_target(line@) is None,
        },
{
    let v = chars_of(line);
    let t = trim_chars(&v);
    let w = split_words(&t);
    if w.len() < 2 {
        return None;
    }
    assert(seqs_of(w@)[0] == w@[0]@ && seqs_of(w@)[1] == w@[1]@);
    Some((string_of(&w[0]), string_of(&w[1])))
}

/// What a header line of the request head is.
#[derive(Debug, Clone, Copy, PartialEq, Eq, Structural)]
pub enum HeaderLine {
    /// The empty line that ends the head.
    End,
    /// A `Content-Length` header with its value (0 when unreadable).
    ContentLength(usize),
    /// Any other header.
    Other,
}

/// ASCII lower case of one character.
pub open spec fn ascii_lower(c: char) -> char {
    if 'A' <= c <= 'Z' {
        ((c as u32) + 32) as char
    } else {
        c
    }
}

/// A header line, trimmed, is the end of the head when empty; a
/// `Content-Length` header when it starts with `content-length:` in any
/// ASCII case, its value the trimmed rest read as a decimal `usize` (0 when
/// that fails); anything else otherwise. Lower-casing the whole line first,
/// as the server does, gives the same: no other character lower-cases to
/// one of `content-length:`, and none lower-cases to or from a digit, a
/// sign or white space.
pub open spec fn spec_header_line(raw: Seq<char>) -> HeaderLine {
    let h = trim(raw);
    if h.len() == 0 {
        HeaderLine::End
    } else if h.len() >= 15 && h.subrange(0, 15).map_values(|c: char| ascii_lower(c))
        == "content-length:"@ {
        HeaderLine::ContentLength(
            match parse_unsigned(trim(h.subrange(15, h.len() as int)), usize::MAX as nat) {
                Some(n) => n as usize,
                None => 0,
            },
        )
    } else {
        HeaderLine::Other
    }
}

/// Classify one line of the request head.
pub fn header_line(raw: &str) -> (r: HeaderLine)
    ensures
        r == spec_header_line(raw@),
{
    let v = chars_of(raw);
    let h = trim_chars(&v);
    if h.len() == 0 {
        return HeaderLine::End;
    }
    let key = chars_of("content-length:");
    proof {
        reveal_strlit("content-length:");
    }
    if h.len() < 15 {
        return HeaderLine::Other;
    }
    let mut i: usize = 0;
    while i < 15
        invariant
            i <= 15,
            h.len() >= 15,
            h@ == trim(raw@),
            key@ == "content-length:"@,
            key@.len() == 15,
            forall|j: int| 0 <= j < i ==> ascii_lower(#[trigger] h@[j]) == key@[j],
        decreases 15 - i,
    {
        let c = h[i];
        let lower = if 'A' <= c && c <= 'Z' {
            ((c as u32) + 32) as u8 as char
        } else {
            c
        };
        assert(lower == ascii_lower(c)) by {
            if 'A' <= c && c <= 'Z' {
                let u = c as u32;
                assert(((u + 32) as u8) as int == (u + 32) as int);
            }
        }
        if lower != key[i] {
            proof {
                assert(h@.subrange(0, 15).map_values(|c: char| ascii_lower(c))[i as int] != "content-length:"@[i as int]);
            }
            return HeaderLine::Other;
        }
        i += 1;
    }
    assert(h@.subrange(0, 15).map_values(|c: char| ascii_lower(c)) =~= "content-length:"@);
    let rest = copy_range(&h, 15, h.len());
    let t = trim_chars(&rest);
    let n: usize = match parse_unsigned_chars(&t, usize::MAX as u64) {
        Some(n) => n as usize,
        None => 0,
    };
    HeaderLine::ContentLength(n)
}

/// Where a request goes.
#[derive(Debug, Clone, Copy, PartialEq, Eq, Structural)]
pub enum Route {
    /// `GET /health`.
    Health,
    /// `POST /pair`: a URL submission.
    Pair,
    /// `OPTIONS` on any path: CORS preflight, which the extension issues.
    Preflight,
    NotFound,
}

/// The route of a request.
pub open spec fn spec_route(method: Seq<char>, path: Seq<char>) -> Route {
    if method == "GET"@ && path == "/health"@ {
        Route::Health
    } else if method == "POST"@ && path == "/pair"@ {
        Route::Pair
    } else if method == "OPTIONS"@ {
        Route::Preflight
    } else {
        Route::NotFound
    }
}

/// Route a request by method and path.
pub fn route(method: &str, path: &str) -> (r: Route)
    ensures
        r == spec_route(method@, path@),
{
    if str_eq(method, "GET") && str_eq(path, "/health") {
        Route::Health
    } else if str_eq(method, "POST") && str_eq(path, "/pair") {
        Route::Pair
    } else if str_eq(method, "OPTIONS") {
        Route::Preflight
    } else {
        Route::NotFound
    }
}

/// What the server answers on a route other than `/pair`.
pub open spec fn spec_fixed_reply(r: Route) -> (u16, Seq<char>) {
    match r {
        Route::Health => (200, "{\"status\":\"ok\",\"app\":\"Xyrus YT Plucker\"}"@),
        Route::Pair => (200, "{\"status\":\"ok\"}"@),
        Route::Preflight => (204, ""@),
        Route::NotFound => (404, "{\"error\":\"not found\"}"@),
    }
}

/// The status and body answered on a route; for `/pair`, the answer to an
/// accepted submission.
pub fn fixed_reply(r: Route) -> (out: (u16, String))
    ensures
        (out.0, out.1@) == spec_fixed_reply(r),
{
    match r {
        Route::Health => (200, String::from_str("{\"status\":\"ok\",\"app\":\"Xyrus YT Plucker\"}")),
        Route::Pair => (200, String::from_str("{\"status\":\"ok\"}")),
        Route::Preflight => (204, String::from_str("")),
        Route::NotFound => (404, String::from_str("{\"error\":\"not found\"}")),
    }
}

/// The answer to a bad request line.
pub fn bad_request_reply() -> (out: (u16, String))
    ensures
        out.0 == 400 && out.1@ == "{\"error\":\"bad request\"}"@,
{
    (400, String::from_str("{\"error\":\"bad request\"}"))
}

/// What a URL submission comes to.
#[derive(Debug)]
pub enum PairReply {
    /// Refused with this status and body.
    Reject { status: u16, body: String },
    /// Accepted: the interface is told of the URL.
    Accept { url: String, is_playlist: bool },
}

/// A submission whose body did not parse as JSON (`error` is the parser's
/// message) is refused; so is one without a non-empty string `url`;
/// otherwise its URL and `isPlaylist` flag (false unless a boolean says
/// otherwise) are accepted.
pub open spec fn spec_pair_reply(parsed: Result<JsonValue, Seq<char>>, r: PairReply) -> bool {
    match parsed {
        Err(e) => r matches PairReply::Reject { status, body } && status == 400 && body@
            == "{\"error\":\"invalid json: "@ + e + "\"}"@,
        Ok(v) => {
            let url = match text_of(v, "url"@) {
                Some(u) => u,
                None => Seq::empty(),
            };
            if url.len() == 0 {
                r matches PairReply::Reject { status, body } && status == 400 && body@
                    == "{\"error\":\"url is required\"}"@
            } else {
                r matches PairReply::Accept { url: u, is_playlist } && u@ == url && is_playlist == (
                match spec_get(v, "isPlaylist"@) {
                    Some(b) => match spec_as_bool(b) {
                        Some(x) => x,
                        None => false,
                    },
                    None => false,
                })
            }
        },
    }
}

/// An accepted submission carries the playlist flag it was sent with: when
/// `isPlaylist` is the JSON boolean `b`, the answer's flag is `b` (so a
/// single video stays a single video), and a submission without
/// `isPlaylist` is not a playlist. The accepted URL is the submitted one.
pub proof fn lemma_pair_keeps_playlist_flag(v: JsonValue, r: PairReply)
    requires
        spec_pair_reply(Ok(v), r),
    ensures
        (spec_get(v, "url"@) matches Some(JsonValue::Str(u)) && u@.len() > 0) ==> r is Accept,
        r matches PairReply::Accept { url, is_playlist } ==> {
            &&& spec_get(v, "url"@) matches Some(JsonValue::Str(u)) && u@ == url@
            &&& forall|b: bool| spec_get(v, "isPlaylist"@) == Some(JsonValue::Bool(b)) ==> is_playlist == b
            &&& spec_get(v, "isPlaylist"@) is None ==> !is_playlist
        },
{
}

/// A submission is accepted only when it parsed as JSON and names a
/// non-empty URL; anything else is refused with status 400.
pub proof fn lemma_pair_refusals(parsed: Result<JsonValue, Seq<char>>, r: PairReply)
    requires
        spec_pair_reply(parsed, r),
    ensures
        r is Accept <==> (parsed matches Ok(v) && spec_get(v, "url"@) matches Some(JsonValue::Str(u))
            && u@.len() > 0),
        r matches PairReply::Reject { status, body } ==> status == 400,
{
}

/// Check a URL submission, given its body as parsed JSON or the parser's
/// error message.
pub fn pair_reply(parsed: Result<JsonValue, String>) -> (r: PairReply)
    ensures
        spec_pair_reply(
            match parsed {
                Ok(v) => Ok::<JsonValue, Seq<char>>(v),
                Err(e) => Err::<JsonValue, Seq<char>>(e@),
            },
            r,
        ),
{
    match parsed {
        Err(e) => {
            let head = concat_str("{\"error\":\"invalid json: ", e.as_str());
            PairReply::Reject { status: 400, body: concat_str(head.as_str(), "\"}") }
        },
        Ok(v) => {
            let url = match v.get("url") {
                Some(u) => match u.as_str() {
                    Some(s) => s.clone(),
                    None => String::new(),
                },
                None => String::new(),
            };
            let is_playlist = match v.get("isPlaylist") {
                Some(b) => match b.as_bool() {
                    Some(x) => x,
                    None => false,
                },
                None => false,
            };
            if url.as_str().is_empty() {
                PairReply::Reject { status: 400, body: String::from_str("{\"error\":\"url is required\"}") }
            } else {
                PairReply::Accept { url, is_playlist }
            }
        },
    }
}

/// Check a URL submission from its raw body: the body is parsed as JSON
/// (`serde_json`) and the outcome decides as in `pair_reply`.
pub fn pair_submission(body: &str) -> (r: PairReply)
    ensures
        spec_pair_reply(json_of_text(body@), r),
{
    pair_reply(parse_json_text(body))
}

/// The reason phrase of a status code.
pub open spec fn reason(status: u16) -> Seq<char> {
    if status == 200 {
        "OK"@
    } else if status == 204 {
        "No Content"@
    } else if status == 400 {
        "Bad Request"@
    } else if status == 404 {
        "Not Found"@
    } else {
        "Unknown"@
    }
}

/// The CORS headers of every response.
pub const CORS_HEADERS: &'static str = "Access-Control-Allow-Origin: *\r\nAccess-Control-Allow-Methods: GET, POST, OPTIONS\r\nAccess-Control-Allow-Headers: Content-Type\r\n";

/// A complete HTTP/1.1 response: status line, CORS headers, a JSON content
/// type when there is a body, the body's length in bytes, and `Connection:
/// close`.
pub open spec fn spec_response_text(status: u16, body: Seq<char>) -> Seq<char> {
    "HTTP/1.1 "@ + decimal(status as nat) + " "@ + reason(status) + "\r\n"@ + CORS_HEADERS@ + (if body.len()
        == 0 {
        ""@
    } else {
        "Content-Type: application/json\r\n"@
    }) + "Content-Length: "@ + decimal(encode_utf8(body).len()) + "\r\nConnection: close\r\n\r\n"@
        + body
}

/// The text of an HTTP response with `status` and `body`.
pub fn response_text(status: u16, body: &str) -> (r: String)
    ensures
        r@ == spec_response_text(status, body@),
{
    let reason_text: &str = if status == 200 {
        "OK"
    } else if status == 204 {
        "No Content"
    } else if status == 400 {
        "Bad Request"
    } else if status == 404 {
        "Not Found"
    } else {
        "Unknown"
    };
    let content_type: &str = if body.is_empty() {
        ""
    } else {
        "Content-Type: application/json\r\n"
    };
    let len = body.as_bytes().len();
    assert(len as nat == encode_utf8(body@).len());
    assert(reason_text@ == reason(status));
    let code = string_of(&decimal_chars(status as u64));
    let length = string_of(&decimal_chars(len as u64));
    let mut out = String::from_str("HTTP/1.1 ");
    out.append(code.as_str());
    out.append(" ");
    out.append(reason_text);
    out.append("\r\n");
    out.append(CORS_HEADERS);
    out.append(content_type);
    out.append("Content-Length: ");
    out.append(length.as_str());
    out.append("\r\nConnection: close\r\n\r\n");
    out.append(body);
    assert(out@ =~= spec_response_text(status, body@));
    out
}

} // verus!
