//! Money amounts as bank statements write them, turned into signed cents.

use vstd::prelude::*;
use crate::text::{is_ws, trim, trim_end, trim_start, trimmed_chars, string_from_chars};

verus! {

pub open spec fn is_digit(c: char) -> bool {
    '0' <= c <= '9'
}

pub open spec fn digit_val(c: char) -> nat {
    (c as u32 - '0' as u32) as nat
}

/// The natural number that a run of decimal digits spells.
pub open spec fn digits_value(s: Seq<char>) -> nat
    decreases s.len(),
{
    if s.len() == 0 {
        0
    } else {
        digits_value(s.drop_last()) * 10 + digit_val(s.last())
    }
}

/// The characters an amount keeps: ASCII digits, `.` and `-`.
pub open spec fn is_amount_char(c: char) -> bool {
    is_digit(c) || c == '.' || c == '-'
}

/// The amount text with every other character (currency symbols, commas,
/// parentheses, letters, spaces) dropped.
pub open spec fn keep_amount_chars(s: Seq<char>) -> Seq<char>
    decreases s.len(),
{
    if s.len() == 0 {
        s
    } else if is_amount_char(s.last()) {
        keep_amount_chars(s.drop_last()).push(s.last())
    } else {
        keep_amount_chars(s.drop_last())
    }
}

/// The number without its leading minus sign, if any.
pub open spec fn unsigned_body(t: Seq<char>) -> Seq<char> {
    if t.len() > 0 && t[0] == '-' {
        t.drop_first()
    } else {
        t
    }
}

/// A decimal number: digits with at most one `.`, and at least one digit.
pub open spec fn is_decimal(b: Seq<char>) -> bool {
    &&& forall|k: int| 0 <= k < b.len() ==> is_digit(#[trigger] b[k]) || b[k] == '.'
    &&& forall|i: int, j: int|
        0 <= i < b.len() && 0 <= j < b.len() && #[trigger] b[i] == '.' && #[trigger] b[j] == '.'
            ==> i == j
    &&& exists|k: int| 0 <= k < b.len() && is_digit(#[trigger] b[k])
}

pub open spec fn has_dot(b: Seq<char>) -> bool {
    exists|i: int| 0 <= i < b.len() && b[i] == '.'
}

/// Where the integer part of a decimal number ends.
pub open spec fn dot_index(b: Seq<char>) -> int {
    if has_dot(b) {
        choose|i: int| 0 <= i < b.len() && b[i] == '.'
    } else {
        b.len() as int
    }
}

pub open spec fn int_part(b: Seq<char>) -> Seq<char> {
    b.take(dot_index(b))
}

pub open spec fn frac_part(b: Seq<char>) -> Seq<char> {
    if has_dot(b) {
        b.skip(dot_index(b) + 1)
    } else {
        Seq::empty()
    }
}

/// The `j`-th fractional digit, 0 past the end.
pub open spec fn frac_digit(f: Seq<char>, j: int) -> nat {
    if 0 <= j < f.len() {
        digit_val(f[j])
    } else {
        0
    }
}

/// The magnitude in cents, rounded half away from zero.
pub open spec fn exact_cents(b: Seq<char>) -> nat {
    let f = frac_part(b);
    digits_value(int_part(b)) * 100 + frac_digit(f, 0) * 10 + frac_digit(f, 1) + (if frac_digit(
        f,
        2,
    ) >= 5 {
        1nat
    } else {
        0nat
    })
}

pub open spec fn i64_max() -> int {
    0x7fff_ffff_ffff_ffff
}

/// Magnitudes beyond what an `i64` holds stop at `i64::MAX`.
pub open spec fn saturated(n: nat) -> int {
    if n > i64_max() {
        i64_max()
    } else {
        n as int
    }
}

/// Wrapped in parentheses, the accountants' way of writing a negative amount.
pub open spec fn is_parenthesized(t: Seq<char>) -> bool {
    t.len() > 0 && t[0] == '(' && t.last() == ')'
}

/// The signed amount in cents that an amount text denotes, if it denotes one.
/// Negative means outflow, positive inflow.
pub open spec fn amount_cents(s: Seq<char>) -> Option<int> {
    let t = trim(s);
    let k = keep_amount_chars(t);
    let b = unsigned_body(k);
    if !is_decimal(b) {
        None
    } else {
        let c = saturated(exact_cents(b));
        if is_parenthesized(t) || (k.len() > 0 && k[0] == '-') {
            Some(-c)
        } else {
            Some(c)
        }
    }
}

/// `{:?}` of a string: quoted, with escapes.
pub uninterp spec fn debug_escaped(s: Seq<char>) -> Seq<char>;

/// The `Debug` rendering of a string slice, as `format!("{:?}", s)` makes it.
#[verifier::external_body]
pub(crate) fn debug_text(s: &str) -> (r: String)
    ensures
        r@ == debug_escaped(s@),
{
    format!("{:?}", s)
}

pub open spec fn amount_error(s: Seq<char>) -> Seq<char> {
    "cannot parse amount: "@ + debug_escaped(trim(s))
}

proof fn lemma_keep_push(s: Seq<char>, c: char)
    ensures
        keep_amount_chars(s.push(c)) == if is_amount_char(c) {
            keep_amount_chars(s).push(c)
        } else {
            keep_amount_chars(s)
        },
{
    assert(s.push(c).drop_last() =~= s);
}

proof fn lemma_digits_push(s: Seq<char>, c: char)
    ensures
        digits_value(s.push(c)) == digits_value(s) * 10 + digit_val(c),
{
    assert(s.push(c).drop_last() =~= s);
}

/// Drops everything but digits, `.` and `-`.
pub fn keep_amount(t: &[char]) -> (k: Vec<char>)
    ensures
        k@ == keep_amount_chars(t@),
{
    let mut k: Vec<char> = Vec::new();
    let n = t.len();
    for i in 0..n
        invariant
            n == t@.len(),
            k@ == keep_amount_chars(t@.take(i as int)),
    {
        let c = t[i];
        proof {
            lemma_keep_push(t@.take(i as int), c);
            assert(t@.take(i as int).push(c) =~= t@.take(i + 1));
        }
        if ('0' <= c && c <= '9') || c == '.' || c == '-' {
            k.push(c);
        }
    }
    assert(t@.take(n as int) =~= t@);
    k
}

/// The cents of a decimal number body, if it is one (capped at `i64::MAX`).
pub fn decimal_cents(b: &[char]) -> (r: Option<i64>)
    ensures
        r is Some <==> is_decimal(b@),
        r matches Some(v) ==> v == saturated(exact_cents(b@)),
{
    let n = b.len();
    let cap: u64 = 0x7fff_ffff_ffff_ffff;
    let mut acc: u64 = 0;
    let mut dot: Option<usize> = None;
    let mut f0: u64 = 0;
    let mut f1: u64 = 0;
    let mut f2: u64 = 0;
    let mut ok = true;
    let mut any_digit = false;
    for i in 0..n
        invariant
            n == b@.len(),
            acc <= cap,
            cap == i64_max(),
            f0 < 10 && f1 < 10 && f2 < 10,
            dot is None ==> f0 == 0 && f1 == 0 && f2 == 0,
            any_digit <==> exists|k: int| 0 <= k < i && is_digit(#[trigger] b@[k]),
            ok ==> forall|k: int| 0 <= k < i ==> is_digit(#[trigger] b@[k]) || b@[k] == '.',
            (ok && dot is None) ==> forall|k: int| 0 <= k < i ==> #[trigger] b@[k] != '.',
            (ok && dot is None) ==> acc == (if digits_value(b@.take(i as int)) > cap {
                cap as int
            } else {
                digits_value(b@.take(i as int)) as int
            }),
            (ok && dot is Some) ==> {
                let d = dot->0;
                &&& d < i
                &&& b@[d as int] == '.'
                &&& forall|k: int| 0 <= k < i && k != d ==> #[trigger] b@[k] != '.'
                &&& forall|k: int| 0 <= k < d ==> #[trigger] b@[k] != '.'
                &&& acc == (if digits_value(b@.take(d as int)) > cap {
                    cap as int
                } else {
                    digits_value(b@.take(d as int)) as int
                })
                &&& f0 == frac_digit(b@.subrange(d + 1, i as int), 0)
                &&& f1 == frac_digit(b@.subrange(d + 1, i as int), 1)
                &&& f2 == frac_digit(b@.subrange(d + 1, i as int), 2)
            },
            !ok ==> !is_decimal(b@),
    {
        let c = b[i];
        proof {
            assert(b@.take(i as int).push(c) =~= b@.take(i + 1));
            lemma_digits_push(b@.take(i as int), c);
        }
        if '0' <= c && c <= '9' {
            any_digit = true;
            assert(is_digit(b@[i as int]));
        }
        if !ok {
        } else if c == '.' {
            match dot {
                Some(d) => {
                    ok = false;
                    assert(b@[d as int] == '.' && b@[i as int] == '.');
                },
                None => {
                    dot = Some(i);
                    assert(b@.subrange(i + 1, i + 1) =~= Seq::<char>::empty());
                },
            }
        } else if '0' <= c && c <= '9' {
            let dv: u64 = (c as u32 - '0' as u32) as u64;
            match dot {
                None => {
                    let next: u128 = acc as u128 * 10 + dv as u128;
                    acc = if next > cap as u128 {
                        cap
                    } else {
                        next as u64
                    };
                },
                Some(d) => {
                    let pos = i - d - 1;
                    proof {
                        let f_old = b@.subrange(d + 1, i as int);
                        let f_new = b@.subrange(d + 1, i + 1);
                        assert(f_new =~= f_old.push(c));
                    }
                    if pos == 0 {
                        f0 = dv;
                    } else if pos == 1 {
                        f1 = dv;
                    } else if pos == 2 {
                        f2 = dv;
                    }
                },
            }
        } else {
            ok = false;
        }
        proof {
            if ok {
                if let Some(d) = dot {
                    if (d as int) < i {
                        let f_old = b@.subrange(d + 1, i as int);
                        let f_new = b@.subrange(d + 1, i + 1);
                        assert(f_new =~= f_old.push(c));
                    }
                }
            }
        }
    }
    if !ok || !any_digit {
        return None;
    }
    proof {
        assert(b@.take(n as int) =~= b@);
        match dot {
            None => {
                assert(!has_dot(b@));
                assert(int_part(b@) =~= b@);
                assert(frac_part(b@) =~= Seq::<char>::empty());
            },
            Some(d) => {
                assert(has_dot(b@));
                let ci = choose|i: int| 0 <= i < b@.len() && b@[i] == '.';
                assert(ci == d);
                assert(frac_part(b@) =~= b@.subrange(d + 1, n as int));
            },
        }
    }
    let total: u128 = acc as u128 * 100 + f0 as u128 * 10 + f1 as u128 + if f2 >= 5 {
        1
    } else {
        0
    };
    if total > cap as u128 {
        Some(0x7fff_ffff_ffff_ffff)
    } else {
        Some(total as i64)
    }
}

proof fn lemma_keep_concat(x: Seq<char>, y: Seq<char>)
    ensures
        keep_amount_chars(x + y) == keep_amount_chars(x) + keep_amount_chars(y),
    decreases y.len(),
{
    if y.len() == 0 {
        assert(x + y =~= x);
        assert(keep_amount_chars(x) + keep_amount_chars(y) =~= keep_amount_chars(x));
    } else {
        lemma_keep_concat(x, y.drop_last());
        assert((x + y).drop_last() =~= x + y.drop_last());
        assert((x + y).last() == y.last());
        if is_amount_char(y.last()) {
            assert(keep_amount_chars(x) + keep_amount_chars(y.drop_last()).push(y.last()) =~= (
            keep_amount_chars(x) + keep_amount_chars(y.drop_last())).push(y.last()));
        }
    }
}

proof fn lemma_keep_all(s: Seq<char>)
    requires
        forall|k: int| 0 <= k < s.len() ==> is_amount_char(#[trigger] s[k]),
    ensures
        keep_amount_chars(s) == s,
    decreases s.len(),
{
    if s.len() > 0 {
        lemma_keep_all(s.drop_last());
        assert(s.drop_last().push(s.last()) =~= s);
    }
}

proof fn lemma_keep_one(c: char)
    ensures
        keep_amount_chars(seq![c]) == if is_amount_char(c) {
            seq![c]
        } else {
            Seq::<char>::empty()
        },
{
    let e = Seq::<char>::empty();
    assert(keep_amount_chars(e) == e);
    assert(seq![c].len() == 1 && seq![c].last() == c);
    assert(seq![c].drop_last() =~= e);
    assert(e.push(c) =~= seq![c]);
}

/// A text with no whitespace at either end is its own trim.
proof fn lemma_trim_unpadded(t: Seq<char>)
    requires
        t.len() > 0,
        !is_ws(t[0]),
        !is_ws(t.last()),
    ensures
        trim(t) == t,
{
    assert(trim_start(t) == t);
    assert(trim_end(t) == t);
}

/// The sign conventions of amounts, as `parse_amount` reads them: for a
/// plain decimal number `s` (digits with at most one `.`), `s` and `$s`
/// give its cents (never negative), and `-s` and `(s)` give the negative of
/// them. With at most two decimals and a value within `i64`, the cents are
/// exactly the value of `s` times 100.
pub proof fn amount_sign_law(s: Seq<char>)
    requires
        is_decimal(s),
    ensures
        amount_cents(s) == Some(saturated(exact_cents(s))),
        amount_cents(seq!['$'] + s) == Some(saturated(exact_cents(s))),
        amount_cents(seq!['-'] + s) == Some(-saturated(exact_cents(s))),
        amount_cents(seq!['('] + s + seq![')']) == Some(-saturated(exact_cents(s))),
        saturated(exact_cents(s)) >= 0,
        exact_cents(s) <= i64_max() ==> saturated(exact_cents(s)) == exact_cents(s),
        frac_part(s).len() <= 2 ==> exact_cents(s) == digits_value(int_part(s)) * 100 + frac_digit(
            frac_part(s),
            0,
        ) * 10 + frac_digit(frac_part(s), 1),
{
    let c = saturated(exact_cents(s));
    assert(s.len() > 0);
    assert forall|k: int| 0 <= k < s.len() implies is_amount_char(#[trigger] s[k]) by {
        assert(is_digit(s[k]) || s[k] == '.');
    }
    assert(is_digit(s[0]) || s[0] == '.');
    assert(is_digit(s.last()) || s.last() == '.');
    lemma_keep_all(s);
    // s
    lemma_trim_unpadded(s);
    assert(unsigned_body(s) == s);
    // $s
    let d = seq!['$'] + s;
    assert(d[0] == '$' && d.last() == s.last());
    lemma_trim_unpadded(d);
    lemma_keep_concat(seq!['$'], s);
    lemma_keep_one('$');
    assert(keep_amount_chars(d) =~= s);
    assert(!is_parenthesized(d));
    // -s
    let m = seq!['-'] + s;
    assert(m[0] == '-' && m.last() == s.last());
    lemma_trim_unpadded(m);
    lemma_keep_concat(seq!['-'], s);
    lemma_keep_one('-');
    assert(keep_amount_chars(m) =~= m);
    assert(unsigned_body(m) =~= s);
    // (s)
    let p = seq!['('] + s + seq![')'];
    assert(p[0] == '(' && p.last() == ')');
    lemma_trim_unpadded(p);
    lemma_keep_concat(seq!['('] + s, seq![')']);
    lemma_keep_concat(seq!['('], s);
    lemma_keep_one('(');
    lemma_keep_one(')');
    assert(keep_amount_chars(p) =~= s);
    assert(is_parenthesized(p));
}

} // verus!
