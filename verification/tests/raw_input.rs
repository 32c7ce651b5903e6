use yt_grab::commands::metadata_from_probe;
use yt_grab::extractors::allanime::{clock_response, detail_response, search_response, sources_response};
use yt_grab::extractors::ExtractError;
use yt_grab::pairing::{pair_submission, PairReply};

fn serde_message_str(text: &str) -> String {
    serde_json::from_str::<serde_json::Value>(text).unwrap_err().to_string()
}

fn serde_message_bytes(bytes: &[u8]) -> String {
    serde_json::from_slice::<serde_json::Value>(bytes).unwrap_err().to_string()
}

#[test]
fn probe_reports_stdout_that_is_not_json() {
    let out = b"WARNING: something\nnot json";
    match metadata_from_probe(true, out, "") {
        Err(e) => assert_eq!(e, format!("unexpected yt-dlp output: {}", serde_message_bytes(out))),
        Ok(_) => panic!(),
    }
}

#[test]
fn probe_reports_a_failed_run_from_stderr() {
    match metadata_from_probe(false, b"{}", "noise\nERROR: [generic] Unsupported URL: x\n") {
        Err(e) => assert_eq!(e, "ERROR: [generic] Unsupported URL: x"),
        Ok(_) => panic!(),
    }
    match metadata_from_probe(false, b"{}", "") {
        Err(e) => assert_eq!(e, "yt-dlp could not read this URL"),
        Ok(_) => panic!(),
    }
}

#[test]
fn probe_reads_a_video_dump() {
    let out = br#"{"title":"V","extractor_key":"Generic","formats":[{"height":720},{"height":360}],"duration":12.5}"#;
    let m = metadata_from_probe(true, out, "").unwrap();
    assert_eq!((m.kind.as_str(), m.title.as_str()), ("video", "V"));
    assert_eq!(m.heights, vec![720, 360]);
}

#[test]
fn pairing_refuses_a_body_that_is_not_json() {
    let body = "{url:";
    match pair_submission(body) {
        PairReply::Reject { status, body: b } => {
            assert_eq!(status, 400);
            assert_eq!(b, format!("{{\"error\":\"invalid json: {}\"}}", serde_message_str(body)));
        }
        other => panic!("accepted: {other:?}"),
    }
}

#[test]
fn pairing_accepts_a_raw_submission() {
    match pair_submission(r#"{"url":"https://x.test/v","isPlaylist":true}"#) {
        PairReply::Accept { url, is_playlist } => {
            assert_eq!(url, "https://x.test/v");
            assert!(is_playlist);
        }
        other => panic!("refused: {other:?}"),
    }
    match pair_submission(r#"{"url":""}"#) {
        PairReply::Reject { status, body } => {
            assert_eq!(status, 400);
            assert_eq!(body, "{\"error\":\"url is required\"}");
        }
        other => panic!("accepted: {other:?}"),
    }
}

#[test]
fn raw_search_response() {
    let text = r#"{"data":{"shows":{"edges":[{"_id":"a1","name":"Show","thumbnail":"t.jpg"}]}}}"#;
    let rs = search_response(text).unwrap();
    assert_eq!(rs.len(), 1);
    assert_eq!(rs[0].id, "a1");
    assert_eq!(rs[0].title, "Show");
    let bad = "<html>";
    match search_response(bad) {
        Err(ExtractError::Parse(m)) => assert_eq!(m, serde_message_str(bad)),
        _ => panic!(),
    }
}

#[test]
fn raw_detail_response() {
    let text = r#"{"data":{"show":{"name":"T","availableEpisodesDetail":{"sub":["2","1"]}}}}"#;
    let (title, eps) = detail_response(text, "sub").unwrap();
    assert_eq!(title, "T");
    assert_eq!(eps, vec!["2".to_string(), "1".to_string()]);
    assert!(matches!(detail_response("", "sub"), Err(ExtractError::Parse(_))));
}

#[test]
fn raw_sources_response() {
    let text = r#"{"data":{"episode":{"sourceUrls":[{"sourceUrl":"--abc","sourceName":"Default"},{"sourceUrl":"x","sourceName":"Other"}]}}}"#;
    let s = sources_response(text).unwrap();
    assert_eq!(s, vec![("--abc".to_string(), "Default".to_string())]);
    match sources_response(r#"{"data":{"tobeparsed":"QUJD"}}"#) {
        Err(ExtractError::Parse(m)) => assert_eq!(m, "could not decrypt sources"),
        _ => panic!(),
    }
    match sources_response(r#"{"data":{}}"#) {
        Err(ExtractError::Unavailable(m)) => assert_eq!(m, "no sources for this episode"),
        _ => panic!(),
    }
}

#[test]
fn raw_clock_response() {
    let body = br#"{"links":[{"link":"https://cdn.test/a.m3u8","hls":true}]}"#;
    let opts = clock_response(body).unwrap();
    assert_eq!(opts.len(), 1);
    assert_eq!(opts[0].url, "https://cdn.test/a.m3u8");
    match clock_response(b"{}") {
        Err(ExtractError::Parse(m)) => assert_eq!(m, "clock response had no links"),
        _ => panic!(),
    }
    let bad = b"nope";
    match clock_response(bad) {
        Err(ExtractError::Parse(m)) => assert_eq!(m, serde_message_bytes(bad)),
        _ => panic!(),
    }
}
