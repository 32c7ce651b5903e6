use yt_grab::json::{JsonNumber, JsonValue};
use yt_grab::text::{chars_of, decimal_chars, parse_unsigned_chars, split_chars, split_lines, split_words, trim_chars};

fn to_json(v: &serde_json::Value) -> JsonValue {
    match v {
        serde_json::Value::Null => JsonValue::Null,
        serde_json::Value::Bool(b) => JsonValue::Bool(*b),
        serde_json::Value::Number(n) => {
            if let Some(u) = n.as_u64() {
                JsonValue::Number(JsonNumber::PosInt(u))
            } else if let Some(i) = n.as_i64() {
                JsonValue::Number(JsonNumber::NegInt(i))
            } else {
                JsonValue::Number(JsonNumber::Float)
            }
        }
        serde_json::Value::String(s) => JsonValue::Str(s.clone()),
        serde_json::Value::Array(a) => JsonValue::Array(a.iter().map(to_json).collect()),
        serde_json::Value::Object(m) => {
            JsonValue::Object(m.iter().map(|(k, v)| (k.clone(), to_json(v))).collect())
        }
    }
}

fn parse(text: &str) -> JsonValue {
    to_json(&serde_json::from_str::<serde_json::Value>(text).unwrap())
}

fn s(v: &[char]) -> String {
    v.iter().collect()
}

#[test]
fn pointer_follows_members_and_indices() {
    let v = parse(r#"{"a":{"b":[10,{"c":"x"}]},"m~n":1,"p/q":2}"#);
    assert_eq!(v.pointer("/a/b/1/c").and_then(|x| x.as_str()).map(|x| x.as_str()), Some("x"));
    assert_eq!(v.pointer("/a/b/0").and_then(|x| x.as_u64()), Some(10));
    assert!(v.pointer("/a/b/01").is_none());
    assert!(v.pointer("/a/b/+1").is_none());
    assert!(v.pointer("/a/b/2").is_none());
    assert!(v.pointer("a").is_none());
    assert!(v.pointer("").is_some());
    assert_eq!(v.pointer("/m~0n").and_then(|x| x.as_u64()), Some(1));
    assert_eq!(v.pointer("/p~1q").and_then(|x| x.as_u64()), Some(2));
}

#[test]
fn number_readings() {
    let v = parse(r#"{"big":18446744073709551615,"neg":-5,"f":1.5}"#);
    assert_eq!(v.get("big").and_then(|x| x.as_u64()), Some(u64::MAX));
    assert_eq!(v.get("big").and_then(|x| x.as_i64()), None);
    assert_eq!(v.get("neg").and_then(|x| x.as_u64()), None);
    assert_eq!(v.get("neg").and_then(|x| x.as_i64()), Some(-5));
    assert_eq!(v.get("f").and_then(|x| x.as_i64()), None);
    assert_eq!(v.get("missing").is_none(), true);
}

#[test]
fn trims_unicode_white_space() {
    let v = chars_of("\u{3000}\t a b \u{a0}\n");
    assert_eq!(s(&trim_chars(&v)), "a b");
}

#[test]
fn splits_like_str_split_and_splitn() {
    let v = chars_of("a|b||c");
    let p: Vec<String> = split_chars(&v, '|', 0).iter().map(|x| s(x)).collect();
    assert_eq!(p, vec!["a", "b", "", "c"]);
    let q: Vec<String> = split_chars(&v, '|', 2).iter().map(|x| s(x)).collect();
    assert_eq!(q, vec!["a", "b||c"]);
    let e: Vec<String> = split_chars(&chars_of(""), '|', 0).iter().map(|x| s(x)).collect();
    assert_eq!(e, vec![""]);
}

#[test]
fn splits_words_and_lines() {
    let w: Vec<String> = split_words(&chars_of("  GET   /x  HTTP/1.1 ")).iter().map(|x| s(x)).collect();
    assert_eq!(w, vec!["GET", "/x", "HTTP/1.1"]);
    let l: Vec<String> = split_lines(&chars_of("a\r\nb\n\nc\r")).iter().map(|x| s(x)).collect();
    assert_eq!(l, vec!["a", "b", "", "c\r"]);
    let l2: Vec<String> = split_lines(&chars_of("x\n")).iter().map(|x| s(x)).collect();
    assert_eq!(l2, vec!["x"]);
    assert!(split_lines(&chars_of("")).is_empty());
}

#[test]
fn decimal_rendering_and_parsing() {
    assert_eq!(s(&decimal_chars(0)), "0");
    assert_eq!(s(&decimal_chars(19877)), "19877");
    assert_eq!(s(&decimal_chars(u64::MAX)), "18446744073709551615");
    assert_eq!(parse_unsigned_chars(&chars_of("+42"), u64::MAX), Some(42));
    assert_eq!(parse_unsigned_chars(&chars_of("+"), u64::MAX), None);
    assert_eq!(parse_unsigned_chars(&chars_of(""), u64::MAX), None);
    assert_eq!(parse_unsigned_chars(&chars_of("4294967296"), u32::MAX as u64), None);
    assert_eq!(parse_unsigned_chars(&chars_of("4294967295"), u32::MAX as u64), Some(4294967295));
    assert_eq!(parse_unsigned_chars(&chars_of("-1"), u64::MAX), None);
}
