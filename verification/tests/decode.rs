use yt_grab::extractors::decode::{allanime_source, ALLANIME_XOR_KEY};

/// Encode a path the way AllAnime does, to prove the round-trip.
fn encode(path: &str) -> String {
    let mut s = String::from("--");
    for b in path.bytes() {
        s.push_str(&format!("{:02x}", b ^ ALLANIME_XOR_KEY));
    }
    s
}

#[test]
fn round_trips_a_clock_path() {
    let path = "/apivtwo/clock?id=abc123";
    assert_eq!(allanime_source(&encode(path)).as_deref(), Some(path));
}

#[test]
fn passes_through_plain_urls() {
    let url = "https://example.com/x.m3u8";
    assert_eq!(allanime_source(url).as_deref(), Some(url));
}

#[test]
fn rejects_odd_length_hex() {
    assert_eq!(allanime_source("--abc"), None);
}

#[test]
fn decodes_upper_case_hex() {
    // '/' is 0x2f; 0x2f ^ 0x38 = 0x17.
    assert_eq!(allanime_source("--17").as_deref(), Some("/"));
    assert_eq!(allanime_source("--1757").as_deref(), Some("/o"));
    assert_eq!(allanime_source("--1A").as_deref(), Some("\""));
}

#[test]
fn accepts_a_sign_in_a_pair() {
    // from_str_radix takes "+7" as 0x07; 0x07 ^ 0x38 = 0x3f ('?').
    assert_eq!(allanime_source("--+7").as_deref(), Some("?"));
}

#[test]
fn rejects_non_hex_and_non_ascii() {
    assert_eq!(allanime_source("--zz"), None);
    assert_eq!(allanime_source("--é1"), None);
    assert_eq!(allanime_source("--é"), None);
}

#[test]
fn rejects_other_inputs() {
    assert_eq!(allanime_source("ftp://x"), None);
    assert_eq!(allanime_source(""), None);
    assert_eq!(allanime_source("-"), None);
}

#[test]
fn decodes_an_empty_payload() {
    assert_eq!(allanime_source("--").as_deref(), Some(""));
}
