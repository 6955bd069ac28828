//! Character-level helpers shared by the parsers: whitespace trimming,
//! ASCII case folding, substring search and decimal rendering.

use vstd::prelude::*;

verus! {

/// `char::is_whitespace`: the Unicode `White_Space` property.
pub open spec fn is_ws(c: char) -> bool {
    ||| ('\u{9}' <= c <= '\u{d}')
    ||| c == ' '
    ||| c == '\u{85}'
    ||| c == '\u{a0}'
    ||| c == '\u{1680}'
    ||| ('\u{2000}' <= c <= '\u{200a}')
    ||| c == '\u{2028}'
    ||| c == '\u{2029}'
    ||| c == '\u{202f}'
    ||| c == '\u{205f}'
    ||| c == '\u{3000}'
}

pub fn is_ws_exec(c: char) -> (r: bool)
    ensures
        r == is_ws(c),
{
    ('\u{9}' <= c && c <= '\u{d}') || c == ' ' || c == '\u{85}' || c == '\u{a0}' || c == '\u{1680}'
        || ('\u{2000}' <= c && c <= '\u{200a}') || c == '\u{2028}' || c == '\u{2029}' || c
        == '\u{202f}' || c == '\u{205f}' || c == '\u{3000}'
}

/// `str::trim_start`.
pub open spec fn trim_start(s: Seq<char>) -> Seq<char>
    decreases s.len(),
{
    if s.len() > 0 && is_ws(s[0]) {
        trim_start(s.drop_first())
    } else {
        s
    }
}

/// `str::trim_end`.
pub open spec fn trim_end(s: Seq<char>) -> Seq<char>
    decreases s.len(),
{
    if s.len() > 0 && is_ws(s.last()) {
        trim_end(s.drop_last())
    } else {
        s
    }
}

/// `str::trim`.
pub open spec fn trim(s: Seq<char>) -> Seq<char> {
    trim_end(trim_start(s))
}

/// The characters of a string slice, one by one.
pub fn chars_of(s: &str) -> (v: Vec<char>)
    ensures
        v@ == s@,
{
    let mut v: Vec<char> = Vec::new();
    for c in it: s.chars()
        invariant
            v@ == it.seq().take(it.index() as int),
            it.seq() == s@,
    {
        v.push(c);
    }
    v
}


/// A `String` holding exactly the given characters.
#[verifier::external_body]
pub(crate) fn string_from_chars(v: &[char]) -> (r: String)
    ensures
        r@ == v@,
{
    v.iter().collect()
}

/// `a` followed by `b`.
pub fn concat_str(a: &str, b: &str) -> (r: String)
    ensures
        r@ == a@ + b@,
{
    String::from_str(a).concat(b)
}

/// The characters of a `String`.
pub fn chars_of_string(s: &String) -> (v: Vec<char>)
    ensures
        v@ == s@,
{
    chars_of(s.as_str())
}

proof fn lemma_trim_start_skip(s: Seq<char>, i: int)
    requires
        0 <= i <= s.len(),
        forall|k: int| 0 <= k < i ==> is_ws(#[trigger] s[k]),
    ensures
        trim_start(s) == trim_start(s.subrange(i, s.len() as int)),
    decreases i,
{
    if i > 0 {
        assert(s.drop_first() == s.subrange(1, s.len() as int));
        lemma_trim_start_skip(s.drop_first(), i - 1);
        assert(s.drop_first().subrange(i - 1, s.drop_first().len() as int) =~= s.subrange(
            i,
            s.len() as int,
        ));
    } else {
        assert(s.subrange(0, s.len() as int) =~= s);
    }
}

proof fn lemma_trim_end_cut(s: Seq<char>, j: int)
    requires
        0 <= j <= s.len(),
        forall|k: int| j <= k < s.len() ==> is_ws(#[trigger] s[k]),
    ensures
        trim_end(s) == trim_end(s.subrange(0, j)),
    decreases s.len() - j,
{
    if j < s.len() {
        lemma_trim_end_cut(s.drop_last(), j);
        assert(s.drop_last().subrange(0, j) =~= s.subrange(0, j));
    } else {
        assert(s.subrange(0, j) =~= s);
    }
}

/// `str::trim` on a character sequence.
pub fn trim_chars(v: &[char]) -> (r: Vec<char>)
    ensures
        r@ == trim(v@),
{
    let n = v.len();
    let mut i: usize = 0;
    while i < n && is_ws_exec(v[i])
        invariant
            0 <= i <= n,
            n == v@.len(),
            forall|k: int| 0 <= k < i ==> is_ws(#[trigger] v@[k]),
        decreases n - i,
    {
        i = i + 1;
    }
    proof {
        lemma_trim_start_skip(v@, i as int);
    }
    let ghost t = v@.subrange(i as int, n as int);
    assert(trim_start(t) == t);
    let mut j: usize = n;
    while j > i && is_ws_exec(v[j - 1])
        invariant
            i <= j <= n,
            n == v@.len(),
            forall|k: int| j <= k < n ==> is_ws(#[trigger] v@[k]),
        decreases j,
    {
        j = j - 1;
    }
    proof {
        assert forall|k: int| (j - i) <= k < t.len() implies is_ws(#[trigger] t[k]) by {
            assert(t[k] == v@[k + i]);
        }
        lemma_trim_end_cut(t, j - i);
        let u = t.subrange(0, (j - i) as int);
        if u.len() > 0 {
            assert(u.last() == v@[j - 1]);
        }
        assert(trim_end(u) == u);
        assert(u =~= v@.subrange(i as int, j as int));
    }
    let mut r: Vec<char> = Vec::new();
    let mut k: usize = i;
    while k < j
        invariant
            i <= k <= j <= n,
            n == v@.len(),
            r@ =~= v@.subrange(i as int, k as int),
        decreases j - k,
    {
        r.push(v[k]);
        k = k + 1;
    }
    r
}

/// `str::trim` on a string slice, as characters.
pub fn trimmed_chars(s: &str) -> (r: Vec<char>)
    ensures
        r@ == trim(s@),
{
    let v = chars_of(s);
    trim_chars(v.as_slice())
}


pub open spec fn is_digit_char(c: char) -> bool {
    '0' <= c <= '9'
}

pub open spec fn digit_value(c: char) -> nat {
    (c as u32 - '0' as u32) as nat
}

/// The natural number that a run of decimal digits spells.
pub open spec fn decimal_value(s: Seq<char>) -> nat
    decreases s.len(),
{
    if s.len() == 0 {
        0
    } else {
        decimal_value(s.drop_last()) * 10 + digit_value(s.last())
    }
}

pub open spec fn all_digits(s: Seq<char>) -> bool {
    forall|k: int| 0 <= k < s.len() ==> is_digit_char(#[trigger] s[k])
}

/// The integer that `str::parse` reads from a text (radix 10): an optional
/// `+` (or `-` when signed) and then at least one ASCII digit; range checks
/// are left to the caller.
pub open spec fn parsed_integer(s: Seq<char>, signed: bool) -> Option<int> {
    if s.len() > 0 && (s[0] == '+' || (signed && s[0] == '-')) {
        let d = s.drop_first();
        if d.len() > 0 && all_digits(d) {
            if s[0] == '-' {
                Some(-(decimal_value(d) as int))
            } else {
                Some(decimal_value(d) as int)
            }
        } else {
            None
        }
    } else if s.len() > 0 && all_digits(s) {
        Some(decimal_value(s) as int)
    } else {
        None
    }
}

/// `str::parse` into an integer type whose range is `lo..=hi`.
pub open spec fn parsed_in_range(s: Seq<char>, signed: bool, lo: int, hi: int) -> Option<int> {
    match parsed_integer(s, signed) {
        Some(v) => if lo <= v <= hi {
            Some(v)
        } else {
            None
        },
        None => None,
    }
}

proof fn lemma_decimal_push(s: Seq<char>, c: char)
    ensures
        decimal_value(s.push(c)) == decimal_value(s) * 10 + digit_value(c),
{
    assert(s.push(c).drop_last() =~= s);
}

/// Reads a run of digits, capping the value at `2^40`.
fn capped_digits(s: &[char], start: usize) -> (r: (bool, u64))
    requires
        start <= s@.len(),
    ensures
        r.0 <== all_digits(s@.skip(start as int)),
        r.0 ==> all_digits(s@.skip(start as int)),
        r.0 ==> r.1 == (if decimal_value(s@.skip(start as int)) > 0x100_0000_0000 {
            0x100_0000_0000
        } else {
            decimal_value(s@.skip(start as int))
        }),
{
    let cap: u64 = 0x100_0000_0000;
    let mut acc: u64 = 0;
    let mut i = start;
    while i < s.len()
        invariant
            start <= i <= s@.len(),
            all_digits(s@.subrange(start as int, i as int)),
            acc <= cap,
            cap == 0x100_0000_0000,
            acc == (if decimal_value(s@.subrange(start as int, i as int)) > cap {
                cap as int
            } else {
                decimal_value(s@.subrange(start as int, i as int)) as int
            }),
        decreases s@.len() - i,
    {
        let c = s[i];
        if !('0' <= c && c <= '9') {
            proof {
                let t = s@.skip(start as int);
                assert(t[i - start] == c);
            }
            return (false, 0);
        }
        proof {
            assert(s@.subrange(start as int, i + 1) =~= s@.subrange(start as int, i as int).push(c));
            lemma_decimal_push(s@.subrange(start as int, i as int), c);
        }
        let next: u64 = acc * 10 + (c as u32 - '0' as u32) as u64;
        acc = if next > cap { cap } else { next };
        i = i + 1;
    }
    assert(s@.subrange(start as int, i as int) =~= s@.skip(start as int));
    (true, acc)
}

/// `str::parse` into an integer type with range `lo..=hi` (a range inside
/// `-2^40..2^40`).
pub fn parse_integer(s: &[char], signed: bool, lo: i64, hi: i64) -> (r: Option<i64>)
    requires
        -0x100_0000_0000 < lo <= 0 <= hi < 0x100_0000_0000,
    ensures
        match r {
            Some(v) => parsed_in_range(s@, signed, lo as int, hi as int) == Some(v as int),
            None => parsed_in_range(s@, signed, lo as int, hi as int) is None,
        },
{
    if s.len() == 0 {
        return None;
    }
    let c0 = s[0];
    let has_sign = c0 == '+' || (signed && c0 == '-');
    let start: usize = if has_sign { 1 } else { 0 };
    if has_sign && s.len() == 1 {
        return None;
    }
    let (ok, mag) = capped_digits(s, start);
    if !ok {
        proof {
            if !has_sign {
                assert(s@.skip(0) =~= s@);
            }
        }
        return None;
    }
    proof {
        if !has_sign {
            assert(s@.skip(0) =~= s@);
        } else {
            assert(s@.skip(1) =~= s@.drop_first());
        }
    }
    let v: i64 = if c0 == '-' && has_sign { -(mag as i64) } else { mag as i64 };
    if lo <= v && v <= hi {
        Some(v)
    } else {
        None
    }
}

pub open spec fn digit_char(d: nat) -> char {
    (d + '0' as u32) as char
}

/// The decimal digits of a natural number, most significant first.
pub open spec fn decimal_text(n: nat) -> Seq<char>
    decreases n,
{
    if n < 10 {
        seq![digit_char(n)]
    } else {
        decimal_text(n / 10).push(digit_char(n % 10))
    }
}

/// `format!("{}", n)` for an integer.
pub open spec fn int_text(n: int) -> Seq<char> {
    if n < 0 {
        "-"@ + decimal_text((-n) as nat)
    } else {
        decimal_text(n as nat)
    }
}

/// Zeros that bring a text to a width.
pub open spec fn zeros(k: int) -> Seq<char> {
    Seq::new(if k > 0 { k as nat } else { 0 }, |i: int| '0')
}

/// `format!("{:0w$}", n)`: the sign, then zeros up to the width, then digits.
pub open spec fn padded_int_text(n: int, w: int) -> Seq<char> {
    let sign = if n < 0 { "-"@ } else { Seq::<char>::empty() };
    let digits = decimal_text(if n < 0 { (-n) as nat } else { n as nat });
    sign + zeros(w - sign.len() - digits.len()) + digits
}

fn digits_of(n: u64) -> (v: Vec<char>)
    ensures
        v@ == decimal_text(n as nat),
    decreases n,
{
    let d = (n % 10) as u32;
    let c = char_of_digit(d);
    if n < 10 {
        let mut v = Vec::new();
        v.push(c);
        assert(v@ =~= seq![digit_char(n as nat)]);
        v
    } else {
        let mut v = digits_of(n / 10);
        v.push(c);
        v
    }
}

/// The decimal digit character of `d`.
pub fn char_of_digit(d: u32) -> (c: char)
    requires
        d < 10,
    ensures
        c == digit_char(d as nat),
{
    if d == 0 { '0' } else if d == 1 { '1' } else if d == 2 { '2' } else if d == 3 { '3' } else if d
        == 4 { '4' } else if d == 5 { '5' } else if d == 6 { '6' } else if d == 7 { '7' } else if d
        == 8 { '8' } else { '9' }
}

/// `format!("{:0w$}", n)`; width 0 is plain `format!("{}", n)`.
pub fn padded_int_chars(n: i64, w: usize) -> (v: Vec<char>)
    ensures
        v@ == padded_int_text(n as int, w as int),
{
    let mag: u64 = if n < 0 { (-(n as i128)) as u64 } else { n as u64 };
    let digits = digits_of(mag);
    let mut v: Vec<char> = Vec::new();
    let sign_len: usize = if n < 0 { 1 } else { 0 };
    if n < 0 {
        v.push('-');
    }
    let ghost sign = if n < 0 { "-"@ } else { Seq::<char>::empty() };
    proof {
        reveal_strlit("-");
    }
    assert(v@ =~= sign);
    let used: u128 = sign_len as u128 + digits.len() as u128;
    let mut k: u128 = used;
    while k < w as u128
        invariant
            used <= k,
            k <= w || k == used,
            used == sign.len() + digits@.len(),
            v@ =~= sign + zeros(k - used),
        decreases w - k,
    {
        v.push('0');
        k = k + 1;
        assert(zeros(k - used) =~= zeros(k - 1 - used).push('0'));
    }
    assert(zeros(k - used) =~= zeros(w as int - sign.len() - digits@.len()));
    let n_d = digits.len();
    for i in 0..n_d
        invariant
            n_d == digits@.len(),
            v@ =~= sign + zeros(w as int - sign.len() - digits@.len()) + digits@.take(i as int),
    {
        v.push(digits[i]);
    }
    assert(digits@.take(n_d as int) =~= digits@);
    v
}

/// `format!("{}", n)` for an `i64`.
pub fn int_chars(n: i64) -> (v: Vec<char>)
    ensures
        v@ == int_text(n as int),
{
    let v = padded_int_chars(n, 0);
    proof {
        let digits = decimal_text(if n < 0 { (-n) as nat } else { n as nat });
        let sign = if n < 0 { "-"@ } else { Seq::<char>::empty() };
        assert(zeros(0 - sign.len() - digits.len()) =~= Seq::<char>::empty());
        assert(sign + Seq::<char>::empty() =~= sign);
    }
    v
}

/// Whether two character sequences are equal.
pub fn chars_eq(a: &[char], b: &[char]) -> (r: bool)
    ensures
        r == (a@ == b@),
{
    if a.len() != b.len() {
        return false;
    }
    let n = a.len();
    for i in 0..n
        invariant
            n == a@.len() == b@.len(),
            forall|k: int| 0 <= k < i ==> a@[k] == b@[k],
    {
        if a[i] != b[i] {
            return false;
        }
    }
    assert(a@ =~= b@);
    true
}

/// Whether two strings are equal.
pub fn str_eq(a: &str, b: &str) -> (r: bool)
    ensures
        r == (a@ == b@),
{
    let x = chars_of(a);
    let y = chars_of(b);
    chars_eq(x.as_slice(), y.as_slice())
}


/// `str::trim` of a string slice, as a `String`.
pub fn trimmed_string(s: &str) -> (r: String)
    ensures
        r@ == trim(s@),
{
    let t = trimmed_chars(s);
    string_from_chars(t.as_slice())
}

/// A name as the user typed it, trimmed; `message` when nothing but
/// whitespace is left.
pub fn nonblank_name(name: &str, message: &str) -> (r: Result<String, String>)
    ensures
        match r {
            Ok(n) => trim(name@).len() > 0 && n@ == trim(name@),
            Err(e) => trim(name@).len() == 0 && e@ == message@,
        },
{
    let t = trimmed_string(name);
    if t.as_str().is_empty() {
        Err(String::from_str(message))
    } else {
        Ok(t)
    }
}

/// The code of a character after ASCII lower-casing: `A`..`Z` become
/// `a`..`z`, every other character keeps its code.
pub open spec fn folded(c: char) -> u32 {
    if 'A' <= c <= 'Z' {
        (c as u32 + 32) as u32
    } else {
        c as u32
    }
}

pub fn folded_exec(c: char) -> (r: u32)
    ensures
        r == folded(c),
{
    if 'A' <= c && c <= 'Z' {
        (c as u32) + 32
    } else {
        c as u32
    }
}

/// SQLite's `LIKE` with its default settings: `%` matches any run of
/// characters, `_` any one character, and every other character itself,
/// ASCII letters without regard to case; there is no escape character.
pub open spec fn sql_like(t: Seq<char>, p: Seq<char>) -> bool
    decreases t.len() + p.len(),
{
    if p.len() == 0 {
        t.len() == 0
    } else if p[0] == '%' {
        sql_like(t, p.drop_first()) || (t.len() > 0 && sql_like(t.drop_first(), p))
    } else {
        t.len() > 0 && (p[0] == '_' || folded(p[0]) == folded(t[0])) && sql_like(
            t.drop_first(),
            p.drop_first(),
        )
    }
}

fn like_from(t: &[char], p: &[char], i: usize, j: usize) -> (r: bool)
    requires
        i <= t@.len(),
        j <= p@.len(),
    ensures
        r == sql_like(t@.skip(i as int), p@.skip(j as int)),
    decreases t@.len() - i + p@.len() - j,
{
    let ghost ts = t@.skip(i as int);
    let ghost ps = p@.skip(j as int);
    if j == p.len() {
        return i == t.len();
    }
    assert(ps[0] == p@[j as int]);
    assert(ps.drop_first() =~= p@.skip(j + 1));
    if i < t.len() {
        assert(ts[0] == t@[i as int]);
        assert(ts.drop_first() =~= t@.skip(i + 1));
    }
    if p[j] == '%' {
        if like_from(t, p, i, j + 1) {
            true
        } else if i < t.len() {
            like_from(t, p, i + 1, j)
        } else {
            false
        }
    } else if i < t.len() && (p[j] == '_' || folded_exec(p[j]) == folded_exec(t[i])) {
        like_from(t, p, i + 1, j + 1)
    } else {
        false
    }
}

/// Whether a text matches a `LIKE` pattern (see `sql_like`).
pub fn like_matches(t: &[char], p: &[char]) -> (r: bool)
    ensures
        r == sql_like(t@, p@),
{
    assert(t@.skip(0) =~= t@);
    assert(p@.skip(0) =~= p@);
    like_from(t, p, 0, 0)
}

/// `pat` occurs in `s` at position `i`, letters compared without regard to
/// ASCII case.
pub open spec fn matches_at(s: Seq<char>, pat: Seq<char>, i: int) -> bool {
    &&& 0 <= i
    &&& i + pat.len() <= s.len()
    &&& forall|j: int| 0 <= j < pat.len() ==> folded(#[trigger] s[i + j]) == folded(pat[j])
}

/// The first position at or after `i` where `pat` occurs in `s`.
pub open spec fn find_from(s: Seq<char>, pat: Seq<char>, i: int) -> Option<int>
    decreases s.len() - i,
{
    if i < 0 || i + pat.len() > s.len() {
        None
    } else if matches_at(s, pat, i) {
        Some(i)
    } else {
        find_from(s, pat, i + 1)
    }
}

/// The last position at or before `i` where `pat` occurs in `s`.
pub open spec fn rfind_from(s: Seq<char>, pat: Seq<char>, i: int) -> Option<int>
    decreases i + 1,
{
    if i < 0 {
        None
    } else if matches_at(s, pat, i) {
        Some(i)
    } else {
        rfind_from(s, pat, i - 1)
    }
}

/// The last position where `pat` occurs in `s`.
pub open spec fn rfind(s: Seq<char>, pat: Seq<char>) -> Option<int> {
    rfind_from(s, pat, s.len() - pat.len())
}

/// The first position at or after `i` that holds `c`, or the length of `s`.
pub open spec fn index_of_from(s: Seq<char>, c: char, i: int) -> int
    decreases s.len() - i,
{
    if i < 0 || i >= s.len() {
        s.len() as int
    } else if s[i] == c {
        i
    } else {
        index_of_from(s, c, i + 1)
    }
}

pub fn matches_at_exec(s: &[char], pat: &[char], i: usize) -> (r: bool)
    ensures
        r == matches_at(s@, pat@, i as int),
{
    if i > s.len() || pat.len() > s.len() - i {
        return false;
    }
    let n = pat.len();
    let mut j: usize = 0;
    while j < n
        invariant
            n == pat@.len(),
            i + n <= s.len(),
            j <= n,
            forall|k: int| 0 <= k < j ==> folded(#[trigger] s@[i + k]) == folded(pat@[k]),
        decreases n - j,
    {
        if folded_exec(s[i + j]) != folded_exec(pat[j]) {
            return false;
        }
        j = j + 1;
    }
    true
}

/// `find_from` over a slice.
pub fn find_from_exec(s: &[char], pat: &[char], start: usize) -> (r: Option<usize>)
    ensures
        r matches Some(p) ==> find_from(s@, pat@, start as int) == Some(p as int),
        r is None ==> find_from(s@, pat@, start as int) is None,
{
    let mut i = start;
    while i <= s.len() && pat.len() <= s.len() - i
        invariant
            start <= i,
            find_from(s@, pat@, start as int) == find_from(s@, pat@, i as int),
        decreases s@.len() + 1 - i,
    {
        if matches_at_exec(s, pat, i) {
            return Some(i);
        }
        i = i + 1;
    }
    None
}

/// `rfind` over a slice.
pub fn rfind_exec(s: &[char], pat: &[char]) -> (r: Option<usize>)
    ensures
        r matches Some(p) ==> rfind(s@, pat@) == Some(p as int),
        r is None ==> rfind(s@, pat@) is None,
{
    if pat.len() > s.len() {
        return None;
    }
    let mut i: usize = s.len() - pat.len();
    loop
        invariant
            i + pat@.len() <= s@.len(),
            rfind(s@, pat@) == rfind_from(s@, pat@, i as int),
        decreases i,
    {
        if matches_at_exec(s, pat, i) {
            return Some(i);
        }
        if i == 0 {
            assert(rfind_from(s@, pat@, -1) is None);
            return None;
        }
        i = i - 1;
    }
}

/// `index_of_from` over a slice.
pub fn index_of_exec(s: &[char], c: char, start: usize) -> (r: usize)
    ensures
        r == index_of_from(s@, c, start as int),
{
    let mut i = start;
    while i < s.len()
        invariant
            start <= i,
            index_of_from(s@, c, start as int) == index_of_from(s@, c, i as int),
        decreases s@.len() - i,
    {
        if s[i] == c {
            return i;
        }
        i = i + 1;
    }
    s.len()
}

} // verus!
