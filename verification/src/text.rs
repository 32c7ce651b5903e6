//! Character-level string helpers with exact specifications.

use vstd::prelude::*;

verus! {

/// Appends one character to a `String` (`String::push`).
#[verifier::external_body]
pub(crate) fn push_char(s: &mut String, c: char)
    ensures
        final(s)@ == old(s)@.push(c),
{
    s.push(c);
}

/// The characters of a string, in order.
pub fn chars_of(s: &str) -> (v: Vec<char>)
    ensures
        v@ == s@,
{
    let n = s.unicode_len();
    let mut v: Vec<char> = Vec::new();
    let mut i: usize = 0;
    while i < n
        invariant
            n == s@.len(),
            i <= n,
            v@ == s@.subrange(0, i as int),
        decreases n - i,
    {
        v.push(s.get_char(i));
        i += 1;
    }
    assert(v@ == s@);
    v
}

/// A `String` made of the given characters.
pub fn string_of(cs: &Vec<char>) -> (s: String)
    ensures
        s@ == cs@,
{
    let mut s = String::new();
    let mut i: usize = 0;
    while i < cs.len()
        invariant
            i <= cs.len(),
            s@ == cs@.subrange(0, i as int),
        decreases cs.len() - i,
    {
        push_char(&mut s, cs[i]);
        i += 1;
    }
    assert(s@ == cs@);
    s
}

/// The ASCII character for a decimal digit.
pub open spec fn digit_char(d: nat) -> char {
    ((d + 48) as u8) as char
}

/// Decimal rendering of a natural number, without leading zeros.
pub open spec fn decimal(n: nat) -> Seq<char>
    decreases n,
{
    if n < 10 {
        seq![digit_char(n)]
    } else {
        decimal(n / 10).push(digit_char(n % 10))
    }
}

/// Decimal rendering of `n`.
pub fn decimal_chars(n: u64) -> (v: Vec<char>)
    ensures
        v@ == decimal(n as nat),
    decreases n,
{
    let d: u8 = (n % 10) as u8;
    let c: char = (d + 48) as char;
    if n < 10 {
        let mut v: Vec<char> = Vec::new();
        v.push(c);
        v
    } else {
        let mut v = decimal_chars(n / 10);
        v.push(c);
        v
    }
}


/// Unicode `White_Space`, the property that `char::is_whitespace` tests.
pub open spec fn is_ws(c: char) -> bool {
    let u = c as u32;
    ||| 0x09 <= u <= 0x0d
    ||| u == 0x20
    ||| u == 0x85
    ||| u == 0xa0
    ||| u == 0x1680
    ||| 0x2000 <= u <= 0x200a
    ||| u == 0x2028
    ||| u == 0x2029
    ||| u == 0x202f
    ||| u == 0x205f
    ||| u == 0x3000
}

/// Whether `c` is white space.
pub fn char_is_ws(c: char) -> (r: bool)
    ensures
        r == is_ws(c),
{
    let u = c as u32;
    (0x09 <= u && u <= 0x0d) || u == 0x20 || u == 0x85 || u == 0xa0 || u == 0x1680 || (0x2000
        <= u && u <= 0x200a) || u == 0x2028 || u == 0x2029 || u == 0x202f || u == 0x205f || u
        == 0x3000
}

/// A set of characters that a trim removes.
#[derive(Clone, Copy)]
pub enum CharClass {
    /// White space.
    Space,
    /// Exactly this character.
    Is(char),
    /// A carriage return or a line feed.
    LineBreak,
}

pub open spec fn in_class(k: CharClass, c: char) -> bool {
    match k {
        CharClass::Space => is_ws(c),
        CharClass::Is(d) => c == d,
        CharClass::LineBreak => c == '\r' || c == '\n',
    }
}

fn char_in_class(k: CharClass, c: char) -> (r: bool)
    ensures
        r == in_class(k, c),
{
    match k {
        CharClass::Space => char_is_ws(c),
        CharClass::Is(d) => c == d,
        CharClass::LineBreak => c == '\r' || c == '\n',
    }
}

/// `s` without its leading characters of class `k`.
pub open spec fn strip_start(s: Seq<char>, k: CharClass) -> Seq<char>
    decreases s.len(),
{
    if s.len() > 0 && in_class(k, s[0]) {
        strip_start(s.drop_first(), k)
    } else {
        s
    }
}

/// `s` without its trailing characters of class `k`.
pub open spec fn strip_end(s: Seq<char>, k: CharClass) -> Seq<char>
    decreases s.len(),
{
    if s.len() > 0 && in_class(k, s.last()) {
        strip_end(s.drop_last(), k)
    } else {
        s
    }
}

/// `str::trim`: white space removed at both ends.
pub open spec fn trim(s: Seq<char>) -> Seq<char> {
    strip_end(strip_start(s, CharClass::Space), CharClass::Space)
}

/// Copy of `v[a..b]`.
pub fn copy_range(v: &Vec<char>, a: usize, b: usize) -> (r: Vec<char>)
    requires
        a <= b <= v.len(),
    ensures
        r@ == v@.subrange(a as int, b as int),
{
    let mut r: Vec<char> = Vec::new();
    let mut i = a;
    while i < b
        invariant
            a <= i <= b <= v.len(),
            r@ == v@.subrange(a as int, i as int),
        decreases b - i,
    {
        r.push(v[i]);
        i += 1;
    }
    r
}

/// Leading characters of class `k` removed.
pub fn trim_start_in(v: &Vec<char>, k: CharClass) -> (r: Vec<char>)
    ensures
        r@ == strip_start(v@, k),
{
    let mut i: usize = 0;
    assert(v@.subrange(0, v@.len() as int) =~= v@);
    while i < v.len() && char_in_class(k, v[i])
        invariant
            i <= v.len(),
            strip_start(v@, k) == strip_start(v@.subrange(i as int, v@.len() as int), k),
        decreases v.len() - i,
    {
        assert(v@.subrange(i as int, v@.len() as int).drop_first() =~= v@.subrange(
            i + 1,
            v@.len() as int,
        ));
        i += 1;
    }
    proof {
        let t = v@.subrange(i as int, v@.len() as int);
        if i < v.len() {
            assert(t[0] == v@[i as int]);
        }
        assert(strip_start(t, k) == t);
    }
    copy_range(v, i, v.len())
}

/// Trailing characters of class `k` removed.
pub fn trim_end_in(v: &Vec<char>, k: CharClass) -> (r: Vec<char>)
    ensures
        r@ == strip_end(v@, k),
{
    let mut j: usize = v.len();
    assert(v@.subrange(0, v@.len() as int) =~= v@);
    while j > 0 && char_in_class(k, v[j - 1])
        invariant
            j <= v.len(),
            strip_end(v@, k) == strip_end(v@.subrange(0, j as int), k),
        decreases j,
    {
        assert(v@.subrange(0, j as int).drop_last() =~= v@.subrange(0, j - 1));
        j -= 1;
    }
    proof {
        let t = v@.subrange(0, j as int);
        if j > 0 {
            assert(t.last() == v@[j - 1]);
        }
        assert(strip_end(t, k) == t);
    }
    copy_range(v, 0, j)
}

/// `str::trim`.
pub fn trim_chars(v: &Vec<char>) -> (r: Vec<char>)
    ensures
        r@ == trim(v@),
{
    let a = trim_start_in(v, CharClass::Space);
    trim_end_in(&a, CharClass::Space)
}

/// Equality of two character sequences.
pub fn same_chars(a: &Vec<char>, b: &Vec<char>) -> (r: bool)
    ensures
        r == (a@ == b@),
{
    if a.len() != b.len() {
        return false;
    }
    let mut i: usize = 0;
    while i < a.len()
        invariant
            a.len() == b.len(),
            i <= a.len(),
            forall|j: int| 0 <= j < i ==> a@[j] == b@[j],
        decreases a.len() - i,
    {
        if a[i] != b[i] {
            return false;
        }
        i += 1;
    }
    assert(a@ =~= b@);
    true
}

/// Equality of two strings.
pub fn str_eq(a: &str, b: &str) -> (r: bool)
    ensures
        r == (a@ == b@),
{
    let x = chars_of(a);
    let y = chars_of(b);
    same_chars(&x, &y)
}

/// Whether `p` occurs in `s` starting at position `i`.
pub open spec fn occurs_at(s: Seq<char>, p: Seq<char>, i: int) -> bool {
    0 <= i && i + p.len() <= s.len() && s.subrange(i, i + p.len()) == p
}

/// Whether `p` occurs in `s` at position `i`.
pub fn has_prefix_at(s: &Vec<char>, p: &Vec<char>, i: usize) -> (r: bool)
    ensures
        r == occurs_at(s@, p@, i as int),
{
    if i > s.len() || p.len() > s.len() - i {
        return false;
    }
    let mut j: usize = 0;
    while j < p.len()
        invariant
            i + p.len() <= s.len(),
            j <= p.len(),
            forall|k: int| 0 <= k < j ==> s@[i + k] == p@[k],
        decreases p.len() - j,
    {
        if s[i + j] != p[j] {
            assert(s@.subrange(i as int, i + p.len())[j as int] != p@[j as int]);
            return false;
        }
        j += 1;
    }
    assert(s@.subrange(i as int, i + p.len()) =~= p@);
    true
}

/// The first position at which `p` occurs in `s`, if any.
pub open spec fn first_occurrence(s: Seq<char>, p: Seq<char>) -> Option<int> {
    if exists|i: int| occurs_at(s, p, i) {
        Some(choose|i: int| occurs_at(s, p, i) && forall|j: int| 0 <= j < i ==> !occurs_at(s, p, j))
    } else {
        None
    }
}

/// First occurrence of `p` in `s`.
pub fn find_chars(s: &Vec<char>, p: &Vec<char>) -> (r: Option<usize>)
    ensures
        match r {
            Some(i) => occurs_at(s@, p@, i as int) && forall|j: int|
                0 <= j < i ==> !occurs_at(s@, p@, j),
            None => forall|j: int| !occurs_at(s@, p@, j),
        },
        r matches Some(i) ==> first_occurrence(s@, p@) == Some(i as int),
        r is None ==> first_occurrence(s@, p@) is None,
{
    let mut i: usize = 0;
    loop
        invariant
            i <= s.len(),
            forall|j: int| 0 <= j < i ==> !occurs_at(s@, p@, j),
        decreases s.len() - i,
    {
        if has_prefix_at(s, p, i) {
            proof {
                let w = choose|k: int| occurs_at(s@, p@, k) && forall|j: int| 0 <= j < k ==> !occurs_at(s@, p@, j);
                assert(occurs_at(s@, p@, i as int));
                assert(occurs_at(s@, p@, w));
                if w < i { } else if w > i { } 
            }
            return Some(i);
        }
        if i == s.len() {
            assert forall|j: int| !occurs_at(s@, p@, j) by {
                if j > i {
                }
            }
            return None;
        }
        i += 1;
    }
}

/// Whether `p` occurs anywhere in `s`.
pub fn contains_chars(s: &Vec<char>, p: &Vec<char>) -> (r: bool)
    ensures
        r == exists|i: int| occurs_at(s@, p@, i),
{
    match find_chars(s, p) {
        Some(_) => true,
        None => false,
    }
}


/// The character sequences held by a vector of character vectors.
pub open spec fn seqs_of(vs: Seq<Vec<char>>) -> Seq<Seq<char>> {
    vs.map_values(|x: Vec<char>| x@)
}

/// `str::splitn(n, c)`, or `str::split(c)` when `n` is 0: the pieces of `s`
/// between occurrences of `c`, where once `n` pieces exist the last one takes
/// the rest of the input.
pub open spec fn split_seq(s: Seq<char>, c: char, n: nat) -> Seq<Seq<char>>
    decreases s.len(),
{
    if s.len() == 0 {
        seq![Seq::<char>::empty()]
    } else {
        let r = split_seq(s.drop_last(), c, n);
        if s.last() == c && (n == 0 || r.len() < n) {
            r.push(Seq::<char>::empty())
        } else {
            r.update(r.len() - 1, r.last().push(s.last()))
        }
    }
}

proof fn lemma_split_seq_nonempty(s: Seq<char>, c: char, n: nat)
    ensures
        split_seq(s, c, n).len() >= 1,
    decreases s.len(),
{
    if s.len() > 0 {
        lemma_split_seq_nonempty(s.drop_last(), c, n);
    }
}

/// `splitn` yields at most `n` pieces.
pub proof fn lemma_split_seq_at_most(s: Seq<char>, c: char, n: nat)
    requires
        n >= 1,
    ensures
        split_seq(s, c, n).len() <= n,
    decreases s.len(),
{
    if s.len() > 0 {
        lemma_split_seq_at_most(s.drop_last(), c, n);
        lemma_split_seq_nonempty(s.drop_last(), c, n);
    }
}

/// Pieces of `v` between occurrences of `c`: at most `n` of them
/// (`str::splitn`), or all of them when `n` is 0 (`str::split`).
pub fn split_chars(v: &Vec<char>, c: char, n: usize) -> (r: Vec<Vec<char>>)
    ensures
        seqs_of(r@) == split_seq(v@, c, n as nat),
{
    let mut r: Vec<Vec<char>> = Vec::new();
    r.push(Vec::new());
    let mut i: usize = 0;
    assert(seqs_of(r@) =~= split_seq(v@.subrange(0, 0), c, n as nat));
    while i < v.len()
        invariant
            i <= v.len(),
            r.len() >= 1,
            seqs_of(r@) == split_seq(v@.subrange(0, i as int), c, n as nat),
        decreases v.len() - i,
    {
        let ghost before = seqs_of(r@);
        let ghost t = v@.subrange(0, i + 1);
        assert(t.drop_last() =~= v@.subrange(0, i as int));
        assert(t.last() == v@[i as int]);
        if v[i] == c && (n == 0 || r.len() < n) {
            r.push(Vec::new());
            assert(seqs_of(r@) =~= before.push(Seq::<char>::empty()));
        } else {
            let mut last = r.pop().unwrap();
            last.push(v[i]);
            r.push(last);
            assert(seqs_of(r@) =~= before.update(before.len() - 1, before.last().push(v@[i as int])));
        }
        i += 1;
    }
    assert(v@.subrange(0, v@.len() as int) =~= v@);
    r
}

/// White-space separated words of `s` (`str::split_whitespace`), together
/// with whether `s` ends inside a word.
pub open spec fn words_acc(s: Seq<char>) -> (Seq<Seq<char>>, bool)
    decreases s.len(),
{
    if s.len() == 0 {
        (Seq::<Seq<char>>::empty(), false)
    } else {
        let (w, inside) = words_acc(s.drop_last());
        if is_ws(s.last()) {
            (w, false)
        } else if inside {
            (w.update(w.len() - 1, w.last().push(s.last())), true)
        } else {
            (w.push(seq![s.last()]), true)
        }
    }
}

/// `str::split_whitespace`.
pub open spec fn words(s: Seq<char>) -> Seq<Seq<char>> {
    words_acc(s).0
}

proof fn lemma_words_inside(s: Seq<char>)
    ensures
        words_acc(s).1 ==> words_acc(s).0.len() >= 1,
    decreases s.len(),
{
    if s.len() > 0 {
        lemma_words_inside(s.drop_last());
    }
}

/// The white-space separated words of `v`.
pub fn split_words(v: &Vec<char>) -> (r: Vec<Vec<char>>)
    ensures
        seqs_of(r@) == words(v@),
{
    let mut r: Vec<Vec<char>> = Vec::new();
    let mut inside = false;
    let mut i: usize = 0;
    assert(seqs_of(r@) =~= words_acc(v@.subrange(0, 0)).0);
    while i < v.len()
        invariant
            i <= v.len(),
            inside ==> r.len() >= 1,
            (seqs_of(r@), inside) == words_acc(v@.subrange(0, i as int)),
        decreases v.len() - i,
    {
        let ghost before = seqs_of(r@);
        let ghost t = v@.subrange(0, i + 1);
        assert(t.drop_last() =~= v@.subrange(0, i as int));
        assert(t.last() == v@[i as int]);
        if char_is_ws(v[i]) {
            inside = false;
        } else if inside {
            let mut last = r.pop().unwrap();
            last.push(v[i]);
            r.push(last);
            assert(seqs_of(r@) =~= before.update(before.len() - 1, before.last().push(v@[i as int])));
        } else {
            let mut w: Vec<char> = Vec::new();
            w.push(v[i]);
            r.push(w);
            assert(seqs_of(r@) =~= before.push(seq![v@[i as int]]));
            inside = true;
        }
        i += 1;
    }
    assert(v@.subrange(0, v@.len() as int) =~= v@);
    r
}

/// One trailing carriage return removed.
pub open spec fn strip_cr(l: Seq<char>) -> Seq<char> {
    if l.len() > 0 && l.last() == '\r' {
        l.drop_last()
    } else {
        l
    }
}

/// `str::lines`: the pieces between `'\n'` characters, each one that was
/// followed by `'\n'` losing one trailing `'\r'`, and without a final empty
/// piece.
pub open spec fn lines(s: Seq<char>) -> Seq<Seq<char>> {
    let p = split_seq(s, '\n', 0);
    let body = p.drop_last().map_values(|l: Seq<char>| strip_cr(l));
    if p.last().len() == 0 {
        body
    } else {
        body.push(p.last())
    }
}

/// The lines of `v` (`str::lines`).
pub fn split_lines(v: &Vec<char>) -> (r: Vec<Vec<char>>)
    ensures
        seqs_of(r@) == lines(v@),
{
    let p = split_chars(v, '\n', 0);
    proof {
        lemma_split_seq_nonempty(v@, '\n', 0);
    }
    let ghost sp = seqs_of(p@);
    let mut r: Vec<Vec<char>> = Vec::new();
    let mut i: usize = 0;
    while i + 1 < p.len()
        invariant
            p.len() >= 1,
            i + 1 <= p.len(),
            sp == seqs_of(p@),
            seqs_of(r@) == sp.drop_last().subrange(0, i as int).map_values(
                |l: Seq<char>| strip_cr(l),
            ),
        decreases p.len() - i,
    {
        let ghost before = seqs_of(r@);
        let piece = &p[i];
        assert(piece@ == sp[i as int]);
        let k = piece.len();
        let c = if k > 0 && piece[k - 1] == '\r' {
            copy_range(piece, 0, k - 1)
        } else {
            copy_range(piece, 0, k)
        };
        assert(c@ =~= strip_cr(piece@));
        let ghost rv = r@;
        r.push(c);
        assert(r@ == rv.push(c));
        assert(seqs_of(r@) =~= before.push(strip_cr(sp[i as int])));
        assert(sp.drop_last().subrange(0, i + 1).map_values(|l: Seq<char>| strip_cr(l))
            =~= before.push(strip_cr(sp[i as int])));
        i += 1;
    }
    let ghost body = seqs_of(r@);
    let last = &p[p.len() - 1];
    assert(sp.last() == last@);
    assert(sp.drop_last().subrange(0, sp.drop_last().len() as int) =~= sp.drop_last());
    if last.len() > 0 {
        let c = copy_range(last, 0, last.len());
        assert(c@ =~= last@);
        let ghost rv = r@;
        r.push(c);
        assert(r@ == rv.push(c));
        assert(seqs_of(r@) =~= body.push(sp.last()));
    }
    r
}


/// Whether every character of `s` is ASCII.
pub open spec fn all_ascii(s: Seq<char>) -> bool {
    forall|i: int| 0 <= i < s.len() ==> (#[trigger] s[i] as u32) < 128
}

/// An ASCII decimal digit.
pub open spec fn is_digit(c: char) -> bool {
    '0' <= c <= '9'
}

/// The value of an ASCII decimal digit.
pub open spec fn digit_value(c: char) -> nat {
    (c as u32 - '0' as u32) as nat
}

/// Whether every character of `s` is a decimal digit.
pub open spec fn all_digits(s: Seq<char>) -> bool {
    forall|i: int| 0 <= i < s.len() ==> is_digit(#[trigger] s[i])
}

/// The number that a string of decimal digits denotes.
pub open spec fn digits_value(s: Seq<char>) -> nat
    decreases s.len(),
{
    if s.len() == 0 {
        0
    } else {
        digits_value(s.drop_last()) * 10 + digit_value(s.last())
    }
}

/// `FromStr` for an unsigned integer type whose largest value is `max`:
/// an optional `'+'`, then one or more decimal digits, denoting at most
/// `max`.
pub open spec fn parse_unsigned(s: Seq<char>, max: nat) -> Option<nat> {
    let body = if s.len() > 0 && s[0] == '+' {
        s.drop_first()
    } else {
        s
    };
    if body.len() > 0 && all_digits(body) && digits_value(body) <= max {
        Some(digits_value(body))
    } else {
        None
    }
}

proof fn lemma_digits_value_prefix(s: Seq<char>, i: int)
    requires
        0 <= i <= s.len(),
    ensures
        digits_value(s.subrange(0, i)) <= digits_value(s),
    decreases s.len(),
{
    if i < s.len() {
        assert(s.drop_last().subrange(0, i) =~= s.subrange(0, i));
        lemma_digits_value_prefix(s.drop_last(), i);
    } else {
        assert(s.subrange(0, i) =~= s);
    }
}

/// The value of the decimal digits `v[from..]`, if it is at most `max`.
fn digits_up_to(v: &Vec<char>, from: usize, max: u64) -> (r: Option<u64>)
    requires
        from <= v.len(),
    ensures
        ({
            let body = v@.subrange(from as int, v@.len() as int);
            match r {
                Some(n) => all_digits(body) && digits_value(body) == n && n <= max,
                None => !all_digits(body) || digits_value(body) > max,
            }
        }),
{
    let ghost body = v@.subrange(from as int, v@.len() as int);
    let mut acc: u64 = 0;
    let mut i: usize = from;
    assert(body.subrange(0, 0) =~= Seq::<char>::empty());
    while i < v.len()
        invariant
            from <= i <= v.len(),
            body == v@.subrange(from as int, v@.len() as int),
            all_digits(body.subrange(0, i - from)),
            acc == digits_value(body.subrange(0, i - from)),
            acc <= max,
        decreases v.len() - i,
    {
        let c = v[i];
        let ghost pre = body.subrange(0, i - from);
        let ghost next = body.subrange(0, i - from + 1);
        assert(next.drop_last() =~= pre);
        assert(next.last() == c);
        if !('0' <= c && c <= '9') {
            assert(!is_digit(body[i - from]));
            return None;
        }
        let d: u64 = (c as u32 - '0' as u32) as u64;
        if acc > max / 10 || d > max || acc * 10 > max - d {
            proof {
                assert(acc > max / 10 ==> acc * 10 > max) by (nonlinear_arith)
                    requires
                        max >= 0,
                ;
                assert(digits_value(next) > max);
                if all_digits(body) {
                    lemma_digits_value_prefix(body, i - from + 1);
                }
            }
            return None;
        }
        acc = acc * 10 + d;
        assert(all_digits(next)) by {
            assert forall|k: int| 0 <= k < next.len() implies is_digit(#[trigger] next[k]) by {
                if k < next.len() - 1 {
                    assert(next[k] == pre[k]);
                }
            }
        }
        i += 1;
    }
    assert(body.subrange(0, body.len() as int) =~= body);
    Some(acc)
}

/// `FromStr` for an unsigned integer type whose largest value is `max`.
pub fn parse_unsigned_chars(v: &Vec<char>, max: u64) -> (r: Option<u64>)
    ensures
        match r {
            Some(n) => parse_unsigned(v@, max as nat) == Some(n as nat),
            None => parse_unsigned(v@, max as nat) is None,
        },
{
    let from: usize = if v.len() > 0 && v[0] == '+' { 1 } else { 0 };
    proof {
        if from == 1 {
            assert(v@.subrange(1, v@.len() as int) =~= v@.drop_first());
        } else {
            assert(v@.subrange(0, v@.len() as int) =~= v@);
        }
    }
    if from == v.len() {
        return None;
    }
    digits_up_to(v, from, max)
}

/// Every occurrence of `pat` in `s`, scanning from the left, replaced by
/// `rep` (`str::replace`).
pub open spec fn replace_all(s: Seq<char>, pat: Seq<char>, rep: Seq<char>) -> Seq<char>
    decreases s.len(),
{
    if pat.len() == 0 || s.len() < pat.len() {
        s
    } else if s.subrange(0, pat.len() as int) == pat {
        rep + replace_all(s.subrange(pat.len() as int, s.len() as int), pat, rep)
    } else {
        seq![s[0]] + replace_all(s.drop_first(), pat, rep)
    }
}

/// `str::replace`.
pub fn replace_all_chars(v: &Vec<char>, pat: &Vec<char>, rep: &Vec<char>) -> (r: Vec<char>)
    requires
        pat.len() > 0,
    ensures
        r@ == replace_all(v@, pat@, rep@),
{
    let mut out: Vec<char> = Vec::new();
    let mut i: usize = 0;
    assert(v@.subrange(0, v@.len() as int) =~= v@);
    while i < v.len()
        invariant
            pat.len() > 0,
            i <= v.len(),
            replace_all(v@, pat@, rep@) == out@ + replace_all(
                v@.subrange(i as int, v@.len() as int),
                pat@,
                rep@,
            ),
        decreases v.len() - i,
    {
        let ghost rest = v@.subrange(i as int, v@.len() as int);
        if has_prefix_at(v, pat, i) {
            assert(rest.subrange(0, pat@.len() as int) =~= v@.subrange(i as int, i + pat@.len()));
            assert(rest.subrange(pat@.len() as int, rest.len() as int) =~= v@.subrange(
                i + pat@.len(),
                v@.len() as int,
            ));
            let mut k: usize = 0;
            let ghost out0 = out@;
            while k < rep.len()
                invariant
                    k <= rep.len(),
                    out@ == out0 + rep@.subrange(0, k as int),
                decreases rep.len() - k,
            {
                out.push(rep[k]);
                k += 1;
            }
            assert(rep@.subrange(0, rep@.len() as int) =~= rep@);
            assert(out0 + (rep@ + replace_all(v@.subrange(i + pat@.len(), v@.len() as int), pat@, rep@))
                =~= out@ + replace_all(v@.subrange(i + pat@.len(), v@.len() as int), pat@, rep@));
            i += pat.len();
        } else {
            proof {
                if rest.len() >= pat@.len() {
                    assert(rest.subrange(0, pat@.len() as int) =~= v@.subrange(i as int, i + pat@.len()));
                }
                assert(rest.drop_first() =~= v@.subrange(i + 1, v@.len() as int));
                assert(rest[0] == v@[i as int]);
                let ghost tail = replace_all(v@.subrange(i + 1, v@.len() as int), pat@, rep@);
                if pat@.len() == 0 || rest.len() < pat@.len() {
                    assert(replace_all(rest, pat@, rep@) == rest);
                    assert(rest =~= seq![v@[i as int]] + v@.subrange(i + 1, v@.len() as int));
                    lemma_replace_short(v@.subrange(i + 1, v@.len() as int), pat@, rep@);
                }
                assert(out@.push(v@[i as int]) + tail =~= out@ + (seq![v@[i as int]] + tail));
            }
            out.push(v[i]);
            i += 1;
        }
    }
    assert(replace_all(v@.subrange(i as int, v@.len() as int), pat@, rep@) =~= Seq::<char>::empty());
    assert(out@ + Seq::<char>::empty() =~= out@);
    out
}

proof fn lemma_replace_short(s: Seq<char>, pat: Seq<char>, rep: Seq<char>)
    requires
        s.len() < pat.len(),
    ensures
        replace_all(s, pat, rep) == s,
{
}

/// The first occurrence of `pat` in `s` replaced by `rep`
/// (`str::replacen(pat, rep, 1)`).
pub open spec fn replace_first(s: Seq<char>, pat: Seq<char>, rep: Seq<char>) -> Seq<char> {
    match first_occurrence(s, pat) {
        Some(i) => s.subrange(0, i) + rep + s.subrange(i + pat.len(), s.len() as int),
        None => s,
    }
}

/// `str::replacen(pat, rep, 1)`.
pub fn replace_first_chars(v: &Vec<char>, pat: &Vec<char>, rep: &Vec<char>) -> (r: Vec<char>)
    ensures
        r@ == replace_first(v@, pat@, rep@),
{
    match find_chars(v, pat) {
        Some(i) => {
            let n = v.len();
            assert(occurs_at(v@, pat@, i as int));
            let e = i + pat.len();
            let mut out = copy_range(v, 0, i);
            append_chars(&mut out, rep);
            let tail = copy_range(v, e, v.len());
            append_chars(&mut out, &tail);
            out
        },
        None => copy_range(v, 0, v.len()),
    }
}

/// Appends the characters of `b` to `a`.
pub fn append_chars(a: &mut Vec<char>, b: &Vec<char>)
    ensures
        final(a)@ == old(a)@ + b@,
{
    let mut k: usize = 0;
    while k < b.len()
        invariant
            k <= b.len(),
            a@ == old(a)@ + b@.subrange(0, k as int),
        decreases b.len() - k,
    {
        a.push(b[k]);
        k += 1;
    }
    assert(b@.subrange(0, b@.len() as int) =~= b@);
}

/// `a` followed by `b`.
pub fn concat_str(a: &str, b: &str) -> (r: String)
    ensures
        r@ == a@ + b@,
{
    let mut s = String::from_str(a);
    s.append(b);
    s
}


/// Whether `s` starts with `p` (`str::starts_with`).
pub fn starts_with_str(s: &Vec<char>, p: &str) -> (r: bool)
    ensures
        r == (p@.len() <= s@.len() && s@.subrange(0, p@.len() as int) == p@),
{
    let pv = chars_of(p);
    has_prefix_at(s, &pv, 0)
}

/// The strings held by a slice of string slices.
pub open spec fn strs_view(s: Seq<&str>) -> Seq<Seq<char>> {
    s.map_values(|x: &str| x@)
}

/// The character sequences held by a vector of strings.
pub open spec fn strings_view(v: Seq<String>) -> Seq<Seq<char>> {
    v.map_values(|s: String| s@)
}

/// The `(text, text)` pairs held by a vector of string pairs.
pub open spec fn pairs_view(s: Seq<(String, String)>) -> Seq<(Seq<char>, Seq<char>)> {
    s.map_values(|p: (String, String)| (p.0@, p.1@))
}

/// Owned copies of the given strings.
pub fn to_strings(s: &[&str]) -> (r: Vec<String>)
    ensures
        strings_view(r@) == strs_view(s@),
{
    let mut r: Vec<String> = Vec::new();
    let mut i: usize = 0;
    while i < s.len()
        invariant
            i <= s@.len(),
            r@.len() == i,
            strings_view(r@) == strs_view(s@).subrange(0, i as int),
        decreases s@.len() - i,
    {
        let ghost before = r@;
        let x = String::from_str(s[i]);
        assert(x@ == strs_view(s@)[i as int]);
        r.push(x);
        assert(r@ == before.push(x));
        assert(strings_view(r@) =~= strs_view(s@).subrange(0, i + 1));
        i += 1;
    }
    assert(strs_view(s@).subrange(0, s@.len() as int) =~= strs_view(s@));
    r
}

} // verus!
