//! A JSON document as plain values, with the lookups that the extractors
//! and the metadata reader perform on it.

use vstd::prelude::*;
use crate::text::{chars_of, copy_range, parse_unsigned, parse_unsigned_chars, replace_all, replace_all_chars, same_chars, seqs_of, split_chars, split_seq};

verus! {

/// A JSON number, as far as integer readings of it go.
#[derive(Debug, Clone, Copy)]
pub enum JsonNumber {
    /// A non-negative integer.
    PosInt(u64),
    /// A negative integer.
    NegInt(i64),
    /// A number with a fraction or an exponent.
    Float,
}

/// A JSON value. Object members are held in the order they were given when
/// the value was built; a value converted from `serde_json`'s default map
/// holds them sorted by key, not in document order. Lookups take the first
/// member with the key.
#[derive(Debug)]
pub enum JsonValue {
    Null,
    Bool(bool),
    Number(JsonNumber),
    Str(String),
    Array(Vec<JsonValue>),
    Object(Vec<(String, JsonValue)>),
}

/// The value of the first member named `key`.
pub open spec fn lookup(entries: Seq<(String, JsonValue)>, key: Seq<char>) -> Option<JsonValue>
    decreases entries.len(),
{
    if entries.len() == 0 {
        None
    } else if entries[0].0@ == key {
        Some(entries[0].1)
    } else {
        lookup(entries.drop_first(), key)
    }
}

/// `Value::get` with a string key: the member of an object.
pub open spec fn spec_get(v: JsonValue, key: Seq<char>) -> Option<JsonValue> {
    match v {
        JsonValue::Object(m) => lookup(m@, key),
        _ => None,
    }
}

/// `Value::as_str`.
pub open spec fn spec_as_str(v: JsonValue) -> Option<Seq<char>> {
    match v {
        JsonValue::Str(s) => Some(s@),
        _ => None,
    }
}

/// `Value::as_u64`.
pub open spec fn spec_as_u64(v: JsonValue) -> Option<u64> {
    match v {
        JsonValue::Number(JsonNumber::PosInt(n)) => Some(n),
        _ => None,
    }
}

/// `Value::as_i64`.
pub open spec fn spec_as_i64(v: JsonValue) -> Option<i64> {
    match v {
        JsonValue::Number(JsonNumber::PosInt(n)) => if n <= i64::MAX {
            Some(n as i64)
        } else {
            None
        },
        JsonValue::Number(JsonNumber::NegInt(n)) => Some(n),
        _ => None,
    }
}

/// `Value::as_bool`.
pub open spec fn spec_as_bool(v: JsonValue) -> Option<bool> {
    match v {
        JsonValue::Bool(b) => Some(b),
        _ => None,
    }
}

/// `Value::as_array`: the items of an array.
pub open spec fn spec_as_array(v: JsonValue) -> Option<Seq<JsonValue>> {
    match v {
        JsonValue::Array(a) => Some(a@),
        _ => None,
    }
}

/// A JSON Pointer reference token with `~1` and `~0` unescaped.
pub open spec fn unescape_token(t: Seq<char>) -> Seq<char> {
    replace_all(replace_all(t, seq!['~', '1'], seq!['/']), seq!['~', '0'], seq!['~'])
}

/// An array index in a JSON Pointer: decimal digits with no sign and no
/// leading zero.
pub open spec fn pointer_index(t: Seq<char>) -> Option<nat> {
    if t.len() > 0 && (t[0] == '+' || (t[0] == '0' && t.len() != 1)) {
        None
    } else {
        parse_unsigned(t, usize::MAX as nat)
    }
}

/// One step of a JSON Pointer walk.
pub open spec fn pointer_step(v: JsonValue, token: Seq<char>) -> Option<JsonValue> {
    match v {
        JsonValue::Object(m) => lookup(m@, token),
        JsonValue::Array(a) => match pointer_index(token) {
            Some(i) => if i < a@.len() {
                Some(a@[i as int])
            } else {
                None
            },
            None => None,
        },
        _ => None,
    }
}

/// Walks `v` along the (escaped) tokens `ts`.
pub open spec fn pointer_walk(v: JsonValue, ts: Seq<Seq<char>>) -> Option<JsonValue>
    decreases ts.len(),
{
    if ts.len() == 0 {
        Some(v)
    } else {
        match pointer_step(v, unescape_token(ts[0])) {
            Some(w) => pointer_walk(w, ts.drop_first()),
            None => None,
        }
    }
}

/// `Value::pointer` (RFC 6901): the empty pointer names the whole value;
/// otherwise the pointer starts with `/` and each `/`-separated token names
/// an object member or an array index.
pub open spec fn spec_pointer(v: JsonValue, p: Seq<char>) -> Option<JsonValue> {
    if p.len() == 0 {
        Some(v)
    } else if p[0] != '/' {
        None
    } else {
        pointer_walk(v, split_seq(p.drop_first(), '/', 0))
    }
}

impl JsonValue {
    /// The member named `key`, if this is an object that has one.
    pub fn get(&self, key: &str) -> (r: Option<&JsonValue>)
        ensures
            match r {
                Some(x) => spec_get(*self, key@) == Some(*x),
                None => spec_get(*self, key@) is None,
            },
    {
        let k = chars_of(key);
        self.get_chars(&k)
    }

    /// The member named `key`, if this is an object that has one.
    pub fn get_chars(&self, key: &Vec<char>) -> (r: Option<&JsonValue>)
        ensures
            match r {
                Some(x) => spec_get(*self, key@) == Some(*x),
                None => spec_get(*self, key@) is None,
            },
    {
        match self {
            JsonValue::Object(m) => {
                let mut i: usize = 0;
                assert(m@.subrange(0, m@.len() as int) =~= m@);
                while i < m.len()
                    invariant
                        i <= m.len(),
                        spec_get(*self, key@) == lookup(m@, key@),
                        lookup(m@, key@) == lookup(m@.subrange(i as int, m@.len() as int), key@),
                    decreases m.len() - i,
                {
                    let ghost rest = m@.subrange(i as int, m@.len() as int);
                    assert(rest[0] == m@[i as int]);
                    let name = chars_of(m[i].0.as_str());
                    if same_chars(&name, key) {
                        return Some(&m[i].1);
                    }
                    assert(rest.drop_first() =~= m@.subrange(i + 1, m@.len() as int));
                    i += 1;
                }
                None
            },
            _ => None,
        }
    }

    /// The text of a string value.
    pub fn as_str(&self) -> (r: Option<&String>)
        ensures
            match r {
                Some(s) => spec_as_str(*self) == Some(s@),
                None => spec_as_str(*self) is None,
            },
    {
        match self {
            JsonValue::Str(s) => Some(s),
            _ => None,
        }
    }

    /// The integer value of a non-negative integer number.
    pub fn as_u64(&self) -> (r: Option<u64>)
        ensures
            r == spec_as_u64(*self),
    {
        match self {
            JsonValue::Number(JsonNumber::PosInt(n)) => Some(*n),
            _ => None,
        }
    }

    /// The integer value of an integer number that fits in `i64`.
    pub fn as_i64(&self) -> (r: Option<i64>)
        ensures
            r == spec_as_i64(*self),
    {
        match self {
            JsonValue::Number(JsonNumber::PosInt(n)) => {
                if *n <= 0x7fff_ffff_ffff_ffffu64 {
                    Some(*n as i64)
                } else {
                    None
                }
            },
            JsonValue::Number(JsonNumber::NegInt(n)) => Some(*n),
            _ => None,
        }
    }

    /// The value of a boolean.
    pub fn as_bool(&self) -> (r: Option<bool>)
        ensures
            r == spec_as_bool(*self),
    {
        match self {
            JsonValue::Bool(b) => Some(*b),
            _ => None,
        }
    }

    /// One step of a JSON Pointer walk, with an unescaped token.
    fn pointer_step_exec(&self, token: &Vec<char>) -> (r: Option<&JsonValue>)
        ensures
            match r {
                Some(x) => pointer_step(*self, token@) == Some(*x),
                None => pointer_step(*self, token@) is None,
            },
    {
        match self {
            JsonValue::Object(_) => self.get_chars(token),
            JsonValue::Array(a) => {
                let idx = if token.len() > 0 && (token[0] == '+' || (token[0] == '0'
                    && token.len() != 1)) {
                    None
                } else {
                    parse_unsigned_chars(token, usize::MAX as u64)
                };
                match idx {
                    Some(n) => {
                        if n < a.len() as u64 {
                            Some(&a[n as usize])
                        } else {
                            None
                        }
                    },
                    None => None,
                }
            },
            _ => None,
        }
    }

    /// The value that the JSON Pointer `p` names (`Value::pointer`).
    pub fn pointer(&self, p: &str) -> (r: Option<&JsonValue>)
        ensures
            match r {
                Some(x) => spec_pointer(*self, p@) == Some(*x),
                None => spec_pointer(*self, p@) is None,
            },
    {
        let v = chars_of(p);
        if v.len() == 0 {
            return Some(self);
        }
        if v[0] != '/' {
            return None;
        }
        let rest = copy_range(&v, 1, v.len());
        assert(rest@ =~= p@.drop_first());
        let toks = split_chars(&rest, '/', 0);
        let ghost ts = seqs_of(toks@);
        let tilde_one = vec!['~', '1'];
        let slash = vec!['/'];
        let tilde_zero = vec!['~', '0'];
        let tilde = vec!['~'];
        assert(tilde_one@ =~= seq!['~', '1']);
        assert(slash@ =~= seq!['/']);
        assert(tilde_zero@ =~= seq!['~', '0']);
        assert(tilde@ =~= seq!['~']);
        let mut cur: &JsonValue = self;
        let mut i: usize = 0;
        assert(ts.subrange(0, ts.len() as int) =~= ts);
        while i < toks.len()
            invariant
                i <= toks.len(),
                ts == seqs_of(toks@),
                tilde_one@ == seq!['~', '1'],
                slash@ == seq!['/'],
                tilde_zero@ == seq!['~', '0'],
                tilde@ == seq!['~'],
                spec_pointer(*self, p@) == pointer_walk(*self, ts),
                pointer_walk(*self, ts) == pointer_walk(*cur, ts.subrange(i as int, ts.len() as int)),
            decreases toks.len() - i,
        {
            let ghost rem = ts.subrange(i as int, ts.len() as int);
            assert(rem[0] == toks@[i as int]@);
            assert(rem.drop_first() =~= ts.subrange(i + 1, ts.len() as int));
            let a = replace_all_chars(&toks[i], &tilde_one, &slash);
            let t = replace_all_chars(&a, &tilde_zero, &tilde);
            assert(t@ == unescape_token(rem[0]));
            match cur.pointer_step_exec(&t) {
                Some(w) => {
                    cur = w;
                },
                None => {
                    return None;
                },
            }
            i += 1;
        }
        Some(cur)
    }

    /// The items of an array.
    pub fn as_array(&self) -> (r: Option<&Vec<JsonValue>>)
        ensures
            match r {
                Some(a) => spec_as_array(*self) == Some(a@),
                None => spec_as_array(*self) is None,
            },
    {
        match self {
            JsonValue::Array(a) => Some(a),
            _ => None,
        }
    }
}

/// What `serde_json::from_str` makes of a JSON text: the document as plain
/// values, or the parser's error message.
pub uninterp spec fn json_of_text(text: Seq<char>) -> Result<JsonValue, Seq<char>>;

/// What `serde_json::from_slice` makes of JSON bytes: the document as plain
/// values, or the parser's error message.
pub uninterp spec fn json_of_bytes(bytes: Seq<u8>) -> Result<JsonValue, Seq<char>>;

/// `serde_json::Value`, a parsed JSON document.
#[verifier::external_type_specification]
#[verifier::external_body]
pub struct ExSerdeValue(serde_json::Value);

/// `serde_json::Number`, a JSON number.
#[verifier::external_type_specification]
#[verifier::external_body]
pub struct ExSerdeNumber(serde_json::Number);

/// A `serde_json::Number` by its integer readings (`Number::as_u64`, else
/// `Number::as_i64`), else as a float. Nothing is stated of the result: it
/// is part of what `parse_json_text` and `parse_json_bytes` name.
#[verifier::external_body]
fn number_of(n: &serde_json::Number) -> JsonNumber {
    match (n.as_u64(), n.as_i64()) {
        (Some(u), _) => JsonNumber::PosInt(u),
        (None, Some(i)) => JsonNumber::NegInt(i),
        (None, None) => JsonNumber::Float,
    }
}

/// A `serde_json::Value` as plain values, variant for variant; object
/// members in the order the map hands them out (sorted by key). Nothing is
/// stated of the result: it is part of what `parse_json_text` and
/// `parse_json_bytes` name.
#[verifier::external_body]
fn value_of(v: &serde_json::Value) -> JsonValue {
    match v {
        serde_json::Value::Null => JsonValue::Null,
        serde_json::Value::Bool(b) => JsonValue::Bool(*b),
        serde_json::Value::Number(n) => JsonValue::Number(number_of(n)),
        serde_json::Value::String(s) => JsonValue::Str(s.clone()),
        serde_json::Value::Array(a) => JsonValue::Array(a.iter().map(value_of).collect()),
        serde_json::Value::Object(m) => JsonValue::Object(m.iter().map(|(k, x)| (k.clone(), value_of(x))).collect()),
    }
}

/// `serde_json::from_str` into a `serde_json::Value`, converted to plain
/// values; on failure the error's message (`Display`). The contract claims
/// only that the outcome is `json_of_text` of the text, which depends on the
/// text alone.
#[verifier::external_body]
pub(crate) fn parse_json_text(text: &str) -> (r: Result<JsonValue, String>)
    ensures
        match r {
            Ok(v) => json_of_text(text@) == Ok::<JsonValue, Seq<char>>(v),
            Err(e) => json_of_text(text@) == Err::<JsonValue, Seq<char>>(e@),
        },
{
    match serde_json::from_str::<serde_json::Value>(text) {
        Ok(v) => Ok(value_of(&v)),
        Err(e) => Err(e.to_string()),
    }
}

/// `serde_json::from_slice` into a `serde_json::Value`, converted to plain
/// values; on failure the error's message (`Display`). The contract claims
/// only that the outcome is `json_of_bytes` of the bytes, which depends on
/// the bytes alone.
#[verifier::external_body]
pub(crate) fn parse_json_bytes(bytes: &[u8]) -> (r: Result<JsonValue, String>)
    ensures
        match r {
            Ok(v) => json_of_bytes(bytes@) == Ok::<JsonValue, Seq<char>>(v),
            Err(e) => json_of_bytes(bytes@) == Err::<JsonValue, Seq<char>>(e@),
        },
{
    match serde_json::from_slice::<serde_json::Value>(bytes) {
        Ok(v) => Ok(value_of(&v)),
        Err(e) => Err(e.to_string()),
    }
}

} // verus!
