//! Deobfuscation helpers shared by the extractors.

use vstd::prelude::*;
use crate::text::{all_ascii, chars_of, copy_range, push_char};

verus! {

/// AllAnime hides each `sourceUrl` as a hex string XOR'd byte-for-byte with
/// this key. Decoding yields a provider path like `/apivtwo/clock?id=...`.
/// Kept as a named constant so a future key change is a one-line fix.
pub const ALLANIME_XOR_KEY: u8 = 0x38;

/// The value of a hexadecimal digit of either case.
pub open spec fn hex_digit(c: char) -> Option<nat> {
    if '0' <= c <= '9' {
        Some((c as u32 - '0' as u32) as nat)
    } else if 'a' <= c <= 'f' {
        Some((c as u32 - 'a' as u32 + 10) as nat)
    } else if 'A' <= c <= 'F' {
        Some((c as u32 - 'A' as u32 + 10) as nat)
    } else {
        None
    }
}

/// `u8::from_str_radix` in base 16 on the two characters `a b`: two hex
/// digits, or a `'+'` sign followed by one.
pub open spec fn hex_pair(a: char, b: char) -> Option<u8> {
    if a == '+' {
        match hex_digit(b) {
            Some(y) => Some(y as u8),
            None => None,
        }
    } else {
        match (hex_digit(a), hex_digit(b)) {
            (Some(x), Some(y)) => Some((x * 16 + y) as u8),
            _ => None,
        }
    }
}

/// The character that one obfuscated byte stands for.
pub open spec fn unmask(b: u8) -> char {
    (b ^ ALLANIME_XOR_KEY) as char
}

/// Decoding of a sequence of hex pairs, each pair giving one character.
pub open spec fn decode_pairs(h: Seq<char>) -> Option<Seq<char>>
    decreases h.len(),
{
    if h.len() == 0 {
        Some(Seq::<char>::empty())
    } else if h.len() == 1 {
        None
    } else {
        match hex_pair(h[0], h[1]) {
            Some(b) => match decode_pairs(h.subrange(2, h.len() as int)) {
                Some(rest) => Some(seq![unmask(b)] + rest),
                None => None,
            },
            None => None,
        }
    }
}

/// What `allanime_source` returns: an input that starts with `--` is
/// decoded from its remaining hex pairs (any non-ASCII character, an odd
/// number of bytes or a pair that is not hex rejects it); an input that
/// starts with `http` is returned as it is; any other input is rejected.
pub open spec fn spec_allanime_source(s: Seq<char>) -> Option<Seq<char>> {
    if s.len() >= 2 && s[0] == '-' && s[1] == '-' {
        let h = s.subrange(2, s.len() as int);
        if all_ascii(h) {
            decode_pairs(h)
        } else {
            None
        }
    } else if s.len() >= 4 && s.subrange(0, 4) == seq!['h', 't', 't', 'p'] {
        Some(s)
    } else {
        None
    }
}


/// `o` with `p` put in front of the decoded text.
pub open spec fn prepend(p: Seq<char>, o: Option<Seq<char>>) -> Option<Seq<char>> {
    match o {
        Some(r) => Some(p + r),
        None => None,
    }
}

proof fn lemma_decode_odd(h: Seq<char>)
    requires
        h.len() % 2 == 1,
    ensures
        decode_pairs(h) is None,
    decreases h.len(),
{
    if h.len() > 1 {
        lemma_decode_odd(h.subrange(2, h.len() as int));
    }
}

fn hex_digit_of(c: char) -> (r: Option<u8>)
    ensures
        match hex_digit(c) {
            Some(d) => r == Some(d as u8) && d < 16,
            None => r is None,
        },
{
    let u = c as u32;
    if '0' <= c && c <= '9' {
        Some((u - 48) as u8)
    } else if 'a' <= c && c <= 'f' {
        Some((u - 97 + 10) as u8)
    } else if 'A' <= c && c <= 'F' {
        Some((u - 65 + 10) as u8)
    } else {
        None
    }
}

fn hex_pair_of(a: char, b: char) -> (r: Option<u8>)
    ensures
        r == hex_pair(a, b),
{
    if a == '+' {
        hex_digit_of(b)
    } else {
        match (hex_digit_of(a), hex_digit_of(b)) {
            (Some(x), Some(y)) => Some(x * 16 + y),
            _ => None,
        }
    }
}

/// Decode an AllAnime obfuscated source. Input is the raw `sourceUrl`; if it
/// starts with `--` the remainder is hex XOR'd with [`ALLANIME_XOR_KEY`].
/// Non-obfuscated URLs (already `http...`) are returned unchanged.
pub fn allanime_source(source_url: &str) -> (r: Option<String>)
    ensures
        match r {
            Some(x) => spec_allanime_source(source_url@) == Some(x@),
            None => spec_allanime_source(source_url@) is None,
        },
{
    let v = chars_of(source_url);
    if v.len() >= 2 && v[0] == '-' && v[1] == '-' {
        let h = copy_range(&v, 2, v.len());
        let mut k: usize = 0;
        while k < h.len()
            invariant
                k <= h.len(),
                v@ == source_url@,
                v@.len() >= 2 && v@[0] == '-' && v@[1] == '-',
                h@ == v@.subrange(2, v@.len() as int),
                forall|j: int| 0 <= j < k ==> (#[trigger] h@[j] as u32) < 128,
            decreases h.len() - k,
        {
            let c = h[k];
            if (c as u32) > 127 {
                assert(!all_ascii(h@));
                return None;
            }
            assert((h@[k as int] as u32) < 128);
            k += 1;
        }
        assert(all_ascii(h@));
        if h.len() % 2 != 0 {
            proof {
                lemma_decode_odd(h@);
            }
            return None;
        }
        let mut out = String::new();
        let mut i: usize = 0;
        assert(h@.subrange(0, h@.len() as int) =~= h@);
        assert(out@ + Seq::<char>::empty() =~= Seq::<char>::empty());
        while i < h.len()
            invariant
                i <= h.len(),
                v@ == source_url@,
                v@.len() >= 2 && v@[0] == '-' && v@[1] == '-',
                h@ == v@.subrange(2, v@.len() as int),
                all_ascii(h@),
                h.len() % 2 == 0,
                i % 2 == 0,
                decode_pairs(h@) == prepend(out@, decode_pairs(h@.subrange(i as int, h@.len() as int))),
            decreases h.len() - i,
        {
            let ghost rest = h@.subrange(i as int, h@.len() as int);
            assert(rest[0] == h@[i as int] && rest[1] == h@[i + 1]);
            assert(rest.subrange(2, rest.len() as int) =~= h@.subrange(i + 2, h@.len() as int));
            let b = match hex_pair_of(h[i], h[i + 1]) {
                Some(b) => b,
                None => {
                    return None;
                },
            };
            let ghost before = out@;
            push_char(&mut out, (b ^ ALLANIME_XOR_KEY) as char);
            proof {
                match decode_pairs(h@.subrange(i + 2, h@.len() as int)) {
                    Some(t) => {
                        assert(before + (seq![unmask(b)] + t) =~= out@ + t);
                    },
                    None => {},
                }
            }
            i += 2;
        }
        assert(h@.subrange(i as int, h@.len() as int) =~= Seq::<char>::empty());
        assert(out@ + Seq::<char>::empty() =~= out@);
        Some(out)
    } else if v.len() >= 4 && v[0] == 'h' && v[1] == 't' && v[2] == 't' && v[3] == 'p' {
        assert(v@.subrange(0, 4) =~= seq!['h', 't', 't', 'p']);
        Some(String::from_str(source_url))
    } else {
        proof {
            if v@.len() >= 4 && v@.subrange(0, 4) == seq!['h', 't', 't', 'p'] {
                assert(v@[0] == v@.subrange(0, 4)[0]);
                assert(v@[1] == v@.subrange(0, 4)[1]);
                assert(v@[2] == v@.subrange(0, 4)[2]);
                assert(v@[3] == v@.subrange(0, 4)[3]);
            }
        }
        None
    }
}


/// Lower-case hexadecimal digit for `d < 16`.
pub open spec fn hex_lower(d: nat) -> char {
    if d < 10 {
        (d + 48) as char
    } else {
        (d - 10 + 97) as char
    }
}

/// The obfuscation that AllAnime applies: each byte of the (ASCII) path
/// XOR'd with the key and written as two lower-case hex digits.
pub open spec fn encode_pairs(p: Seq<char>) -> Seq<char>
    decreases p.len(),
{
    if p.len() == 0 {
        Seq::<char>::empty()
    } else {
        let x = (p[0] as u8) ^ ALLANIME_XOR_KEY;
        seq![hex_lower((x / 16) as nat), hex_lower((x % 16) as nat)] + encode_pairs(p.drop_first())
    }
}

/// An obfuscated `sourceUrl` as AllAnime sends it.
pub open spec fn encode_source(p: Seq<char>) -> Seq<char> {
    seq!['-', '-'] + encode_pairs(p)
}

proof fn lemma_hex_lower(d: nat)
    requires
        d < 16,
    ensures
        hex_digit(hex_lower(d)) == Some(d),
        hex_lower(d) != '+',
        (hex_lower(d) as u32) < 128,
{
}

proof fn lemma_decode_encode(p: Seq<char>)
    requires
        all_ascii(p),
    ensures
        decode_pairs(encode_pairs(p)) == Some(p),
        all_ascii(encode_pairs(p)),
        encode_pairs(p).len() == 2 * p.len(),
    decreases p.len(),
{
    if p.len() > 0 {
        let c = p[0];
        let x = (c as u8) ^ ALLANIME_XOR_KEY;
        let e = encode_pairs(p);
        let t = encode_pairs(p.drop_first());
        assert(all_ascii(p.drop_first())) by {
            assert forall|i: int| 0 <= i < p.drop_first().len() implies (#[trigger] p.drop_first()[i] as u32) < 128 by {
                assert(p.drop_first()[i] == p[i + 1]);
            }
        }
        lemma_decode_encode(p.drop_first());
        lemma_hex_lower((x / 16) as nat);
        lemma_hex_lower((x % 16) as nat);
        assert(e.subrange(2, e.len() as int) =~= t);
        assert(hex_pair(e[0], e[1]) == Some(x));
        let y = c as u8;
        assert((x ^ ALLANIME_XOR_KEY) == y) by (bit_vector)
            requires
                x == y ^ ALLANIME_XOR_KEY,
        ;
        assert((c as u32) < 128);
        let u = c as u32;
        vstd::utf8::char_u32_cast(c, u);
        assert(y as int == u as int);
        assert((y as char) == (u as char));
        assert((y as char) == c);
        assert(seq![unmask(x)] + p.drop_first() =~= p);
        assert forall|i: int| 0 <= i < e.len() implies (#[trigger] e[i] as u32) < 128 by {
            if i >= 2 {
                assert(e[i] == t[i - 2]);
            }
        }
    }
}

/// Decoding undoes the obfuscation: for any ASCII path, the decoded
/// obfuscated form of the path is the path itself.
pub proof fn lemma_source_round_trip(path: Seq<char>)
    requires
        all_ascii(path),
    ensures
        spec_allanime_source(encode_source(path)) == Some(path),
{
    lemma_decode_encode(path);
    let s = encode_source(path);
    assert(s.subrange(2, s.len() as int) =~= encode_pairs(path));
}

} // verus!
