use yt_grab::commands::{extractor_of, last_thumbnail, metadata_args, metadata_from_dump, probe_error};
use yt_grab::deep_link::{deep_link_from_arg, deep_links};
use yt_grab::json::{JsonNumber, JsonValue};
use yt_grab::pairing::{
    bad_request_reply, fixed_reply, header_line, pair_reply, request_target, response_text, route,
    HeaderLine, PairReply, Route,
};

fn to_json(v: &serde_json::Value) -> JsonValue {
    match v {
        serde_json::Value::Null => JsonValue::Null,
        serde_json::Value::Bool(b) => JsonValue::Bool(*b),
        serde_json::Value::Number(n) => {
            if let Some(u) = n.as_u64() {
                JsonValue::Number(JsonNumber::PosInt(u))
            } else if let Some(i) = n.as_i64() {
                JsonValue::Number(JsonNumber::NegInt(i))
            } else {
                JsonValue::Number(JsonNumber::Float)
            }
        }
        serde_json::Value::String(s) => JsonValue::Str(s.clone()),
        serde_json::Value::Array(a) => JsonValue::Array(a.iter().map(to_json).collect()),
        serde_json::Value::Object(m) => {
            JsonValue::Object(m.iter().map(|(k, v)| (k.clone(), to_json(v))).collect())
        }
    }
}

fn parse(text: &str) -> JsonValue {
    to_json(&serde_json::from_str::<serde_json::Value>(text).unwrap())
}

#[test]
fn reads_request_lines() {
    assert_eq!(
        request_target("POST /pair HTTP/1.1\r\n"),
        Some(("POST".to_string(), "/pair".to_string()))
    );
    assert_eq!(request_target("GET\r\n"), None);
    assert_eq!(request_target(""), None);
}

#[test]
fn reads_headers() {
    assert_eq!(header_line("\r\n"), HeaderLine::End);
    assert_eq!(header_line("Content-Length: 17\r\n"), HeaderLine::ContentLength(17));
    assert_eq!(header_line("CONTENT-LENGTH:+5"), HeaderLine::ContentLength(5));
    assert_eq!(header_line("content-length: abc"), HeaderLine::ContentLength(0));
    assert_eq!(header_line("Content-Type: text/plain"), HeaderLine::Other);
}

#[test]
fn routes_requests() {
    assert_eq!(route("GET", "/health"), Route::Health);
    assert_eq!(route("POST", "/pair"), Route::Pair);
    assert_eq!(route("OPTIONS", "/anything"), Route::Preflight);
    assert_eq!(route("GET", "/pair"), Route::NotFound);
    assert_eq!(fixed_reply(Route::NotFound), (404, r#"{"error":"not found"}"#.to_string()));
    assert_eq!(fixed_reply(Route::Health).1, r#"{"status":"ok","app":"Xyrus YT Plucker"}"#);
    assert_eq!(bad_request_reply(), (400, r#"{"error":"bad request"}"#.to_string()));
}

#[test]
fn checks_submissions() {
    match pair_reply(Ok(parse(r#"{"url":"https://y/v","isPlaylist":true}"#))) {
        PairReply::Accept { url, is_playlist } => assert_eq!((url.as_str(), is_playlist), ("https://y/v", true)),
        _ => panic!(),
    }
    match pair_reply(Ok(parse(r#"{"url":"u","isPlaylist":"yes"}"#))) {
        PairReply::Accept { is_playlist, .. } => assert!(!is_playlist),
        _ => panic!(),
    }
    match pair_reply(Ok(parse(r#"{"url":""}"#))) {
        PairReply::Reject { status, body } => assert_eq!((status, body.as_str()), (400, r#"{"error":"url is required"}"#)),
        _ => panic!(),
    }
    match pair_reply(Err("EOF while parsing".to_string())) {
        PairReply::Reject { status, body } => {
            assert_eq!((status, body.as_str()), (400, r#"{"error":"invalid json: EOF while parsing"}"#))
        }
        _ => panic!(),
    }
}

#[test]
fn writes_responses() {
    let r = response_text(200, r#"{"status":"ok"}"#);
    assert_eq!(
        r,
        "HTTP/1.1 200 OK\r\nAccess-Control-Allow-Origin: *\r\nAccess-Control-Allow-Methods: GET, POST, OPTIONS\r\nAccess-Control-Allow-Headers: Content-Type\r\nContent-Type: application/json\r\nContent-Length: 15\r\nConnection: close\r\n\r\n{\"status\":\"ok\"}"
    );
    let e = response_text(204, "");
    assert!(e.starts_with("HTTP/1.1 204 No Content\r\n"));
    assert!(e.ends_with("Content-Length: 0\r\nConnection: close\r\n\r\n"));
    assert!(!e.contains("Content-Type: application/json"));
    assert!(response_text(418, "é").contains("418 Unknown\r\n"));
    assert!(response_text(400, "é").contains("Content-Length: 2\r\n"));
}

#[test]
fn builds_probe_args() {
    assert_eq!(metadata_args("u", false, None), vec!["-J", "--no-warnings", "--no-playlist", "u"]);
    assert_eq!(
        metadata_args("u", true, Some("firefox")),
        vec!["-J", "--no-warnings", "--flat-playlist", "--yes-playlist", "--cookies-from-browser", "firefox", "u"]
    );
    assert_eq!(metadata_args("u", false, Some("none")).len(), 4);
    assert_eq!(metadata_args("u", false, Some("")).len(), 4);
}

#[test]
fn explains_probe_failures() {
    assert_eq!(probe_error("WARNING: x\nERROR: [generic] bad URL\r\nERROR: second\n"), "ERROR: [generic] bad URL");
    assert_eq!(probe_error("nothing useful"), "yt-dlp could not read this URL");
}

#[test]
fn reads_video_dumps() {
    let v = parse(
        r#"{"title":"V","extractor":"generic","thumbnails":[{"url":"s"},{"url":"l"}],
            "formats":[{"height":720},{"height":1080},{"x":1},{"height":720},{"height":360}]}"#,
    );
    let m = metadata_from_dump(&v);
    assert_eq!((m.kind.as_str(), m.title.as_str(), m.source.as_str()), ("video", "V", "generic"));
    assert_eq!(m.heights, vec![1080, 720, 360]);
    assert_eq!(m.thumbnail.as_deref(), Some("l"));
    assert_eq!(m.entry_count, None);
    assert_eq!(extractor_of(&parse(r#"{"extractor_key":"Youtube","extractor":"youtube"}"#)), "Youtube");
    assert_eq!(last_thumbnail(&parse(r#"{"thumbnails":[]}"#)), None);
}

#[test]
fn reads_playlist_dumps() {
    let v = parse(
        r#"{"_type":"playlist","entries":[{"title":"a","thumbnails":[{"url":"t"}]},{"x":1}],"extractor_key":"YoutubeTab"}"#,
    );
    let m = metadata_from_dump(&v);
    assert_eq!((m.kind.as_str(), m.title.as_str()), ("playlist", "Playlist"));
    assert_eq!(m.entries, vec!["a", "(untitled)"]);
    assert_eq!(m.entry_count, Some(2));
    assert_eq!(m.thumbnail.as_deref(), Some("t"));
    assert!(m.heights.is_empty());
    let many: Vec<String> = (0..600).map(|i| format!("{{\"title\":\"{}\"}}", i)).collect();
    let big = parse(&format!(r#"{{"_type":"playlist","playlist_count":601,"entries":[{}]}}"#, many.join(",")));
    let b = metadata_from_dump(&big);
    assert_eq!(b.entries.len(), 500);
    assert_eq!(b.entry_count, Some(601));
}

#[test]
fn reads_deep_links() {
    let p = deep_link_from_arg(" yt-plucker://analyze?url=https%3A%2F%2Fy%2Fv&quality=720 ").unwrap();
    assert_eq!((p.action.as_str(), p.url.as_str(), p.quality.as_deref()), ("analyze", "https://y/v", Some("720")));
    let q = deep_link_from_arg("yt-plucker:///analyze?url=u&url=w").unwrap();
    assert_eq!((q.action.as_str(), q.url.as_str(), q.quality.as_deref()), ("analyze", "w", None));
    assert!(deep_link_from_arg("yt-plucker://analyze?quality=720").is_none());
    assert!(deep_link_from_arg("https://y/v").is_none());
    let all = deep_links(&vec!["app.exe".to_string(), "yt-plucker://go?url=x".to_string()]);
    assert_eq!(all.len(), 1);
    assert_eq!(all[0].action, "go");
}
