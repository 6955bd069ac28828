//! The envelope budget: what a month looks like, what closing it carries
//! forward, and the events that allocating and reallocating append.

use vstd::prelude::*;
use vstd::string::StringSliceAdditionalSpecFns;
use vstd::utf8::{decode_utf8, is_char_boundary};
use crate::text::{like_matches, sql_like, chars_eq, str_eq, chars_of, concat_str, parse_integer, parsed_in_range, padded_int_chars, padded_int_text, string_from_chars};

verus! {

pub open spec fn i32_min() -> int {
    -0x8000_0000
}

pub open spec fn i32_max() -> int {
    0x7fff_ffff
}

pub open spec fn u32_max() -> int {
    0xffff_ffff
}

pub open spec fn is_leap(year: int) -> bool {
    (year % 4 == 0 && year % 100 != 0) || year % 400 == 0
}

/// Days in a month of the proleptic Gregorian calendar; 30 for a month
/// number outside 1..=12.
pub open spec fn month_length(year: int, month: int) -> int {
    if month == 1 || month == 3 || month == 5 || month == 7 || month == 8 || month == 10 || month
        == 12 {
        31
    } else if month == 4 || month == 6 || month == 9 || month == 11 {
        30
    } else if month == 2 {
        if is_leap(year) {
            29
        } else {
            28
        }
    } else {
        30
    }
}

pub fn days_in_month(year: i32, month: u32) -> (d: u32)
    ensures
        d == month_length(year as int, month as int),
{
    match month {
        1 | 3 | 5 | 7 | 8 | 10 | 12 => 31,
        4 | 6 | 9 | 11 => 30,
        2 => {
            if (year % 4 == 0 && year % 100 != 0) || year % 400 == 0 {
                29
            } else {
                28
            }
        },
        _ => 30,
    }
}

/// `s.split(sep)`: the pieces between separators, in order.
pub open spec fn split_on(s: Seq<char>, sep: char) -> Seq<Seq<char>>
    decreases s.len(),
{
    if s.len() == 0 {
        seq![Seq::<char>::empty()]
    } else {
        let p = split_on(s.drop_last(), sep);
        if s.last() == sep {
            p.push(Seq::<char>::empty())
        } else {
            p.update(p.len() - 1, p.last().push(s.last()))
        }
    }
}

proof fn lemma_split_len(s: Seq<char>, sep: char)
    ensures
        split_on(s, sep).len() >= 1,
    decreases s.len(),
{
    if s.len() > 0 {
        lemma_split_len(s.drop_last(), sep);
    }
}

pub open spec fn views_of(v: Seq<Vec<char>>) -> Seq<Seq<char>> {
    Seq::new(v.len(), |i: int| v[i]@)
}

fn split_chars(s: &[char], sep: char) -> (parts: Vec<Vec<char>>)
    ensures
        views_of(parts@) == split_on(s@, sep),
{
    let mut parts: Vec<Vec<char>> = Vec::new();
    let mut cur: Vec<char> = Vec::new();
    let n = s.len();
    for i in 0..n
        invariant
            n == s@.len(),
            views_of(parts@).push(cur@) == split_on(s@.take(i as int), sep),
    {
        let c = s[i];
        proof {
            assert(s@.take(i + 1).drop_last() =~= s@.take(i as int));
            lemma_split_len(s@.take(i as int), sep);
        }
        let ghost before = views_of(parts@).push(cur@);
        if c == sep {
            let ghost old_parts = parts@;
            let done = cur;
            parts.push(done);
            cur = Vec::new();
            assert(views_of(parts@) =~= views_of(old_parts).push(done@));
            assert(views_of(parts@).push(cur@) =~= before.push(Seq::<char>::empty()));
        } else {
            cur.push(c);
            assert(views_of(parts@).push(cur@) =~= before.update(
                before.len() - 1,
                before.last().push(c),
            ));
        }
    }
    let ghost old_parts = parts@;
    let last = cur;
    parts.push(last);
    assert(views_of(parts@) =~= views_of(old_parts).push(last@));
    assert(s@.take(n as int) =~= s@);
    parts
}

pub open spec fn quoted_in(prefix: Seq<char>, text: Seq<char>) -> Seq<char> {
    prefix + text + "'"@
}

/// Days left in the month of `today` (YYYY-MM-DD), counting today; 0 once
/// the day number is past the month's end.
pub open spec fn days_remaining_outcome(today: Seq<char>) -> Result<int, Seq<char>> {
    let parts = split_on(today, '-');
    if parts.len() != 3 {
        Err("invalid date '"@ + today + "'; expected YYYY-MM-DD"@)
    } else {
        match parsed_in_range(parts[0], true, i32_min(), i32_max()) {
            None => Err(quoted_in("invalid year in '"@, today)),
            Some(y) => match parsed_in_range(parts[1], false, 0, u32_max()) {
                None => Err(quoted_in("invalid month in '"@, today)),
                Some(m) => match parsed_in_range(parts[2], false, 0, u32_max()) {
                    None => Err(quoted_in("invalid day in '"@, today)),
                    Some(d) => {
                        let left = month_length(y, m) - d + 1;
                        Ok(if left > 0 {
                            left
                        } else {
                            0
                        })
                    },
                },
            },
        }
    }
}

fn quoted_error(prefix: &str, today: &str) -> (e: String)
    ensures
        e@ == quoted_in(prefix@, today@),
{
    let a = concat_str(prefix, today);
    concat_str(a.as_str(), "'")
}

pub fn days_remaining_in_month(today: &str) -> (r: Result<i64, String>)
    ensures
        match (r, days_remaining_outcome(today@)) {
            (Ok(v), Ok(w)) => v == w,
            (Err(e), Err(m)) => e@ == m,
            _ => false,
        },
{
    let chars = chars_of(today);
    let parts = split_chars(chars.as_slice(), '-');
    if parts.len() != 3 {
        let a = concat_str("invalid date '", today);
        return Err(concat_str(a.as_str(), "'; expected YYYY-MM-DD"));
    }
    assert(parts@[0]@ == views_of(parts@)[0]);
    assert(parts@[1]@ == views_of(parts@)[1]);
    assert(parts@[2]@ == views_of(parts@)[2]);
    let year = match parse_integer(parts[0].as_slice(), true, -0x8000_0000, 0x7fff_ffff) {
        Some(y) => y,
        None => return Err(quoted_error("invalid year in '", today)),
    };
    let month = match parse_integer(parts[1].as_slice(), false, 0, 0xffff_ffff) {
        Some(m) => m,
        None => return Err(quoted_error("invalid month in '", today)),
    };
    let day = match parse_integer(parts[2].as_slice(), false, 0, 0xffff_ffff) {
        Some(d) => d,
        None => return Err(quoted_error("invalid day in '", today)),
    };
    let last = days_in_month(year as i32, month as u32) as i64;
    let left = last - day + 1;
    Ok(if left > 0 {
        left
    } else {
        0
    })
}

/// `s.split_once(sep)`: the text before the first separator and after it.
pub open spec fn split_once_on(s: Seq<char>, sep: char) -> Option<(Seq<char>, Seq<char>)> {
    let parts = split_on(s, sep);
    if parts.len() < 2 {
        None
    } else {
        Some((parts[0], s.skip(parts[0].len() as int + 1)))
    }
}

/// The month after a YYYY-MM month, as YYYY-MM (year zero-padded to four
/// places, month to two).
pub open spec fn next_month_outcome(month: Seq<char>) -> Result<Seq<char>, Seq<char>> {
    match split_once_on(month, '-') {
        None => Err("invalid month format: "@ + month),
        Some((y, m)) => match parsed_in_range(y, true, i32_min(), i32_max()) {
            None => Err("invalid year in: "@ + month),
            Some(year) => match parsed_in_range(m, false, 0, u32_max()) {
                None => Err("invalid month in: "@ + month),
                Some(mon) => if mon == 12 {
                    Ok(padded_int_text(year + 1, 4) + "-01"@)
                } else {
                    Ok(padded_int_text(year, 4) + "-"@ + padded_int_text(mon + 1, 2))
                },
            },
        },
    }
}

/// The inputs on which computing the next month does not overflow: December
/// of `i32::MAX`, or month number `u32::MAX`, would.
pub open spec fn next_month_defined(month: Seq<char>) -> bool {
    match split_once_on(month, '-') {
        Some((y, m)) => match (
            parsed_in_range(y, true, i32_min(), i32_max()),
            parsed_in_range(m, false, 0, u32_max()),
        ) {
            (Some(year), Some(mon)) => (mon == 12 ==> year < i32_max()) && mon < u32_max(),
            _ => true,
        },
        None => true,
    }
}

proof fn lemma_split_first(s: Seq<char>, sep: char)
    ensures
        split_on(s, sep)[0].len() <= s.len(),
        split_on(s, sep)[0] == s.take(split_on(s, sep)[0].len() as int),
        split_on(s, sep).len() == 1 ==> split_on(s, sep)[0] == s,
        split_on(s, sep).len() >= 2 ==> split_on(s, sep)[0].len() < s.len() && s[split_on(
            s,
            sep,
        )[0].len() as int] == sep,
    decreases s.len(),
{
    lemma_split_len(s, sep);
    if s.len() > 0 {
        lemma_split_first(s.drop_last(), sep);
        lemma_split_len(s.drop_last(), sep);
        let p = split_on(s.drop_last(), sep);
        if p.len() >= 2 {
            assert(s.drop_last().take(p[0].len() as int) =~= s.take(p[0].len() as int));
        } else if s.last() != sep {
            assert(split_on(s, sep)[0] == p[0].push(s.last()));
            assert(s.drop_last().push(s.last()) =~= s);
            assert(s.take(s.len() as int) =~= s);
        } else {
            assert(split_on(s, sep)[0] == p[0]);
            assert(s.drop_last() =~= s.take(s.len() - 1));
        }
    }
}

pub fn next_month(month: &str) -> (r: Result<String, String>)
    requires
        next_month_defined(month@),
    ensures
        match (r, next_month_outcome(month@)) {
            (Ok(v), Ok(w)) => v@ == w,
            (Err(e), Err(m)) => e@ == m,
            _ => false,
        },
{
    let chars = chars_of(month);
    let parts = split_chars(chars.as_slice(), '-');
    proof {
        lemma_split_first(month@, '-');
    }
    if parts.len() < 2 {
        return Err(concat_str("invalid month format: ", month));
    }
    assert(parts@[0]@ == views_of(parts@)[0]);
    assert(parts@[0]@.len() < chars@.len());
    let cut = parts[0].len() + 1;
    let mut rest: Vec<char> = Vec::new();
    let mut i = cut;
    while i < chars.len()
        invariant
            cut <= i <= chars@.len(),
            rest@ =~= chars@.subrange(cut as int, i as int),
        decreases chars@.len() - i,
    {
        rest.push(chars[i]);
        i = i + 1;
    }
    assert(rest@ =~= month@.skip(cut as int));
    let year = match parse_integer(parts[0].as_slice(), true, -0x8000_0000, 0x7fff_ffff) {
        Some(y) => y,
        None => return Err(concat_str("invalid year in: ", month)),
    };
    let mon = match parse_integer(rest.as_slice(), false, 0, 0xffff_ffff) {
        Some(m) => m,
        None => return Err(concat_str("invalid month in: ", month)),
    };
    if mon == 12 {
        let y = padded_int_chars(year + 1, 4);
        let ys = string_from_chars(y.as_slice());
        Ok(concat_str(ys.as_str(), "-01"))
    } else {
        let y = padded_int_chars(year, 4);
        let m = padded_int_chars(mon + 1, 2);
        let ys = string_from_chars(y.as_slice());
        let ms = string_from_chars(m.as_slice());
        let a = concat_str(ys.as_str(), "-");
        Ok(concat_str(a.as_str(), ms.as_str()))
    }
}


/// How an allocation event came about: set by the user, one side of a
/// reallocation, or debt carried in by a month close.
#[derive(Debug, PartialEq, Eq, Structural, Clone, Copy)]
pub enum AllocationKind {
    Allocate,
    Reallocate,
    Carry,
}

/// One row of the allocation event log.
#[derive(Debug)]
pub struct AllocationEvent {
    pub category_id: String,
    pub month: String,
    pub amount_cents: i64,
    pub kind: AllocationKind,
    /// The other side of a reallocation.
    pub counterpart_category_id: Option<String>,
}

/// A split together with the date of its transaction's current record.
#[derive(Debug)]
pub struct SplitActivity {
    /// "envelope" or "income".
    pub target_type: String,
    pub target_id: String,
    pub amount_cents: i64,
    pub date: String,
}

/// Which events a sum takes: those of a category (if given), of a month (if
/// given), carry or not (if given).
pub open spec fn event_selected(
    e: AllocationEvent,
    cat: Option<Seq<char>>,
    month: Option<Seq<char>>,
    carry: Option<bool>,
) -> bool {
    &&& (cat matches Some(c) ==> e.category_id@ == c)
    &&& (month matches Some(m) ==> e.month@ == m)
    &&& (carry matches Some(k) ==> (e.kind == AllocationKind::Carry) == k)
}

/// The total of the selected events' amounts.
pub open spec fn event_sum(
    evs: Seq<AllocationEvent>,
    cat: Option<Seq<char>>,
    month: Option<Seq<char>>,
    carry: Option<bool>,
) -> int
    decreases evs.len(),
{
    if evs.len() == 0 {
        0
    } else {
        event_sum(evs.drop_last(), cat, month, carry) + if event_selected(
            evs.last(),
            cat,
            month,
            carry,
        ) {
            evs.last().amount_cents as int
        } else {
            0
        }
    }
}

/// A date falls in a month as the ledger's queries decide it: the date
/// matches the `LIKE` pattern of the month followed by `-%`. For a month
/// written `YYYY-MM` that is a date starting with the month and a dash.
pub open spec fn in_month(date: Seq<char>, month: Seq<char>) -> bool {
    sql_like(date, month + seq!['-', '%'])
}

/// Which split activity a sum takes: of a target type and id, of a month (if
/// given), outflows only (if asked).
pub open spec fn activity_selected(
    a: SplitActivity,
    target_type: Seq<char>,
    target_id: Seq<char>,
    month: Option<Seq<char>>,
    outflow_only: bool,
) -> bool {
    &&& a.target_type@ == target_type
    &&& a.target_id@ == target_id
    &&& (month matches Some(m) ==> in_month(a.date@, m))
    &&& (outflow_only ==> a.amount_cents < 0)
}

pub open spec fn activity_sum(
    acts: Seq<SplitActivity>,
    target_type: Seq<char>,
    target_id: Seq<char>,
    month: Option<Seq<char>>,
    outflow_only: bool,
) -> int
    decreases acts.len(),
{
    if acts.len() == 0 {
        0
    } else {
        activity_sum(acts.drop_last(), target_type, target_id, month, outflow_only)
            + if activity_selected(acts.last(), target_type, target_id, month, outflow_only) {
            acts.last().amount_cents as int
        } else {
            0
        }
    }
}

/// A sum of outflows is never positive.
pub proof fn lemma_outflow_sum_nonpositive(
    acts: Seq<SplitActivity>,
    target_type: Seq<char>,
    target_id: Seq<char>,
    month: Option<Seq<char>>,
)
    ensures
        activity_sum(acts, target_type, target_id, month, true) <= 0,
    decreases acts.len(),
{
    if acts.len() > 0 {
        lemma_outflow_sum_nonpositive(acts.drop_last(), target_type, target_id, month);
    }
}

pub open spec fn i64_fits(v: int) -> bool {
    -0x8000_0000_0000_0000 <= v <= 0x7fff_ffff_ffff_ffff
}

pub open spec fn opt_view(o: Option<&str>) -> Option<Seq<char>> {
    match o {
        Some(s) => Some(s@),
        None => None,
    }
}

/// Whether a date falls in a month (see `in_month`).
pub fn date_in_month(date: &str, month: &str) -> (r: bool)
    ensures
        r == in_month(date@, month@),
{
    let d = chars_of(date);
    let mut pat = chars_of(month);
    pat.push('-');
    pat.push('%');
    assert(pat@ =~= month@ + seq!['-', '%']);
    like_matches(d.as_slice(), pat.as_slice())
}

fn event_matches(e: &AllocationEvent, cat: Option<&str>, month: Option<&str>, carry: Option<bool>) -> (r: bool)
    ensures
        r == event_selected(*e, opt_view(cat), opt_view(month), carry),
{
    let c_ok = match cat {
        Some(c) => str_eq(e.category_id.as_str(), c),
        None => true,
    };
    let m_ok = match month {
        Some(m) => str_eq(e.month.as_str(), m),
        None => true,
    };
    let k_ok = match carry {
        Some(k) => (e.kind == AllocationKind::Carry) == k,
        None => true,
    };
    c_ok && m_ok && k_ok
}

/// The total of the selected events, `None` when it leaves the `i64` range.
pub fn sum_events(evs: &Vec<AllocationEvent>, cat: Option<&str>, month: Option<&str>, carry: Option<bool>) -> (r: Option<i64>)
    ensures
        match r {
            Some(v) => v == event_sum(evs@, opt_view(cat), opt_view(month), carry),
            None => !i64_fits(event_sum(evs@, opt_view(cat), opt_view(month), carry)),
        },
{
    let mut acc: i128 = 0;
    let n = evs.len();
    for i in 0..n
        invariant
            n == evs@.len(),
            acc == event_sum(evs@.take(i as int), opt_view(cat), opt_view(month), carry),
            -(i as int) * 0x8000_0000_0000_0000 <= acc <= (i as int) * 0x7fff_ffff_ffff_ffff,
            i <= n,
            n <= usize::MAX,
    {
        proof {
            assert(evs@.take(i + 1).drop_last() =~= evs@.take(i as int));
        }
        if event_matches(&evs[i], cat, month, carry) {
            acc = acc + evs[i].amount_cents as i128;
        }
    }
    assert(evs@.take(n as int) =~= evs@);
    if acc < -0x8000_0000_0000_0000 || acc > 0x7fff_ffff_ffff_ffff {
        None
    } else {
        Some(acc as i64)
    }
}

fn activity_matches(a: &SplitActivity, target_type: &str, target_id: &str, month: Option<&str>, outflow_only: bool) -> (r: bool)
    ensures
        r == activity_selected(*a, target_type@, target_id@, opt_view(month), outflow_only),
{
    let t_ok = str_eq(a.target_type.as_str(), target_type);
    let i_ok = str_eq(a.target_id.as_str(), target_id);
    let m_ok = match month {
        Some(m) => date_in_month(a.date.as_str(), m),
        None => true,
    };
    let o_ok = !outflow_only || a.amount_cents < 0;
    t_ok && i_ok && m_ok && o_ok
}

/// The total of the selected split activity, `None` when it leaves the
/// `i64` range.
pub fn sum_activity(acts: &Vec<SplitActivity>, target_type: &str, target_id: &str, month: Option<&str>, outflow_only: bool) -> (r: Option<i64>)
    ensures
        match r {
            Some(v) => v == activity_sum(acts@, target_type@, target_id@, opt_view(month), outflow_only),
            None => !i64_fits(activity_sum(acts@, target_type@, target_id@, opt_view(month), outflow_only)),
        },
{
    let mut acc: i128 = 0;
    let n = acts.len();
    for i in 0..n
        invariant
            n == acts@.len(),
            acc == activity_sum(acts@.take(i as int), target_type@, target_id@, opt_view(month), outflow_only),
            -(i as int) * 0x8000_0000_0000_0000 <= acc <= (i as int) * 0x7fff_ffff_ffff_ffff,
            i <= n,
            n <= usize::MAX,
    {
        proof {
            assert(acts@.take(i + 1).drop_last() =~= acts@.take(i as int));
        }
        if activity_matches(&acts[i], target_type, target_id, month, outflow_only) {
            acc = acc + acts[i].amount_cents as i128;
        }
    }
    assert(acts@.take(n as int) =~= acts@);
    if acc < -0x8000_0000_0000_0000 || acc > 0x7fff_ffff_ffff_ffff {
        None
    } else {
        Some(acc as i64)
    }
}


/// A category as the budget lists it, with its group (if any).
#[derive(Debug)]
pub struct BudgetCategory {
    pub category_id: String,
    pub category_name: String,
    /// "flow" or "sinking".
    pub kind: String,
    pub group_id: Option<String>,
    pub group_name: Option<String>,
    pub group_sort_order: Option<i64>,
}

/// A budget category together with its figures for the month.
#[derive(Debug)]
pub struct RawBudgetRow {
    pub category_id: String,
    pub category_name: String,
    pub kind: String,
    pub group_id: Option<String>,
    pub group_name: Option<String>,
    pub group_sort_order: Option<i64>,
    pub allocated_cents: i64,
    pub spent_cents: i64,
    pub carried_in_cents: i64,
}

#[derive(Debug)]
pub struct BudgetCategoryRow {
    pub category_id: String,
    pub category_name: String,
    /// "flow" | "sinking"
    pub kind: String,
    /// user-driven allocations this month (excludes carry events); sinking: all-time cumulative
    pub allocated_cents: i64,
    /// flow: current-month spending; sinking: all-time cumulative spending; always >= 0
    pub spent_cents: i64,
    /// debt carried in from a prior month close; 0 unless this category had a negative available
    pub carried_in_cents: i64,
}

#[derive(Debug)]
pub struct BudgetGroupView {
    pub group_id: String,
    pub group_name: String,
    pub sort_order: i64,
    pub total_allocated_cents: i64,
    pub total_spent_cents: i64,
    pub remaining_cents: i64,
    pub categories: Vec<BudgetCategoryRow>,
}

pub open spec fn is_sinking(kind: Seq<char>) -> bool {
    kind == "sinking"@
}

/// A category's allocated, spent and carried-in figures for a month: flow
/// categories count the month's user-driven allocations and outflows, sinking
/// categories all of them ever; carry events count only as carried in.
pub open spec fn category_figures(
    c: BudgetCategory,
    evs: Seq<AllocationEvent>,
    acts: Seq<SplitActivity>,
    month: Seq<char>,
) -> (int, int, int) {
    let scope = if is_sinking(c.kind@) {
        None
    } else {
        Some(month)
    };
    (
        event_sum(evs, Some(c.category_id@), scope, Some(false)),
        -activity_sum(acts, "envelope"@, c.category_id@, scope, true),
        event_sum(evs, Some(c.category_id@), Some(month), Some(true)),
    )
}

pub open spec fn figures_fit(f: (int, int, int)) -> bool {
    i64_fits(f.0) && i64_fits(f.1) && i64_fits(f.2)
}

pub open spec fn row_of(c: BudgetCategory, r: RawBudgetRow, f: (int, int, int)) -> bool {
    &&& r.category_id == c.category_id
    &&& r.category_name == c.category_name
    &&& r.kind == c.kind
    &&& r.group_id == c.group_id
    &&& r.group_name == c.group_name
    &&& r.group_sort_order == c.group_sort_order
    &&& r.allocated_cents == f.0
    &&& r.spent_cents == f.1
    &&& r.carried_in_cents == f.2
}

fn clone_opt_string(o: &Option<String>) -> (r: Option<String>)
    ensures
        r == *o,
{
    match o {
        Some(s) => Some(s.clone()),
        None => None,
    }
}

fn overflow_error() -> (e: String)
    ensures
        e@ == "integer overflow"@,
{
    String::from_str("integer overflow")
}

/// One category's row of the month's budget, or "integer overflow" when a
/// figure leaves the `i64` range.
pub fn budget_row(c: &BudgetCategory, evs: &Vec<AllocationEvent>, acts: &Vec<SplitActivity>, month: &str) -> (r: Result<RawBudgetRow, String>)
    ensures
        match r {
            Ok(row) => figures_fit(category_figures(*c, evs@, acts@, month@)) && row_of(
                *c,
                row,
                category_figures(*c, evs@, acts@, month@),
            ),
            Err(e) => !figures_fit(category_figures(*c, evs@, acts@, month@)) && e@
                == "integer overflow"@,
        },
{
    let sinking = str_eq(c.kind.as_str(), "sinking");
    proof {
        reveal_strlit("sinking");
    }
    let scope: Option<&str> = if sinking {
        None
    } else {
        Some(month)
    };
    let allocated = sum_events(evs, Some(c.category_id.as_str()), scope, Some(false));
    let outflow = sum_activity(acts, "envelope", c.category_id.as_str(), scope, true);
    let carried = sum_events(evs, Some(c.category_id.as_str()), Some(month), Some(true));
    proof {
        lemma_outflow_sum_nonpositive(acts@, "envelope"@, c.category_id@, opt_view(scope));
    }
    match (allocated, outflow, carried) {
        (Some(a), Some(o), Some(k)) => {
            if o == i64::MIN {
                return Err(overflow_error());
            }
            let ghost f = category_figures(*c, evs@, acts@, month@);
            assert(opt_view(scope) == (if is_sinking(c.kind@) { None } else { Some(month@) }));
            assert(a == f.0);
            assert(-o == f.1);
            assert(k == f.2);
            let row = RawBudgetRow {
                category_id: c.category_id.clone(),
                category_name: c.category_name.clone(),
                kind: c.kind.clone(),
                group_id: clone_opt_string(&c.group_id),
                group_name: clone_opt_string(&c.group_name),
                group_sort_order: c.group_sort_order,
                allocated_cents: a,
                spent_cents: -o,
                carried_in_cents: k,
            };
            assert(row_of(*c, row, f));
            Ok(row)
        },
        _ => Err(overflow_error()),
    }
}

/// The rows of the month's budget, one per category in the given order, or
/// "integer overflow" when some figure leaves the `i64` range.
pub fn budget_rows(cats: &Vec<BudgetCategory>, evs: &Vec<AllocationEvent>, acts: &Vec<SplitActivity>, month: &str) -> (r: Result<Vec<RawBudgetRow>, String>)
    ensures
        match r {
            Ok(rows) => rows@.len() == cats@.len() && forall|k: int|
                0 <= k < cats@.len() ==> figures_fit(category_figures(#[trigger] cats@[k], evs@, acts@, month@))
                    && row_of(cats@[k], rows@[k], category_figures(cats@[k], evs@, acts@, month@)),
            Err(e) => (exists|k: int|
                0 <= k < cats@.len() && !figures_fit(category_figures(#[trigger] cats@[k], evs@, acts@, month@)))
                && e@ == "integer overflow"@,
        },
{
    let mut rows: Vec<RawBudgetRow> = Vec::new();
    let n = cats.len();
    for i in 0..n
        invariant
            n == cats@.len(),
            rows@.len() == i,
            forall|k: int|
                0 <= k < i ==> figures_fit(category_figures(#[trigger] cats@[k], evs@, acts@, month@))
                    && row_of(cats@[k], rows@[k], category_figures(cats@[k], evs@, acts@, month@)),
    {
        match budget_row(&cats[i], evs, acts, month) {
            Ok(row) => rows.push(row),
            Err(e) => {
                assert(!figures_fit(category_figures(cats@[i as int], evs@, acts@, month@)));
                return Err(e);
            },
        }
    }
    Ok(rows)
}


/// The rows of one section of the budget: one kind, grouped or not; in order.
pub open spec fn section_rows(rows: Seq<RawBudgetRow>, kind: Seq<char>, grouped: bool) -> Seq<
    RawBudgetRow,
>
    decreases rows.len(),
{
    if rows.len() == 0 {
        rows
    } else {
        let r = rows.last();
        let p = section_rows(rows.drop_last(), kind, grouped);
        if r.kind@ == kind && (r.group_id is Some) == grouped {
            p.push(r)
        } else {
            p
        }
    }
}

/// Two grouped rows belong to the same group.
pub open spec fn same_group(a: RawBudgetRow, b: RawBudgetRow) -> bool {
    match (a.group_id, b.group_id) {
        (Some(x), Some(y)) => x@ == y@,
        _ => false,
    }
}

/// Consecutive rows of the same group, run by run.
pub open spec fn runs(rows: Seq<RawBudgetRow>) -> Seq<Seq<RawBudgetRow>>
    decreases rows.len(),
{
    if rows.len() == 0 {
        Seq::empty()
    } else {
        let p = runs(rows.drop_last());
        let r = rows.last();
        if p.len() > 0 && same_group(p.last()[0], r) {
            p.update(p.len() - 1, p.last().push(r))
        } else {
            p.push(seq![r])
        }
    }
}

pub open spec fn allocated_total(rows: Seq<RawBudgetRow>) -> int
    decreases rows.len(),
{
    if rows.len() == 0 {
        0
    } else {
        allocated_total(rows.drop_last()) + rows.last().allocated_cents
    }
}

pub open spec fn spent_total(rows: Seq<RawBudgetRow>) -> int
    decreases rows.len(),
{
    if rows.len() == 0 {
        0
    } else {
        spent_total(rows.drop_last()) + rows.last().spent_cents
    }
}

pub open spec fn category_row_of(r: RawBudgetRow, c: BudgetCategoryRow) -> bool {
    &&& c.category_id == r.category_id
    &&& c.category_name == r.category_name
    &&& c.kind == r.kind
    &&& c.allocated_cents == r.allocated_cents
    &&& c.spent_cents == r.spent_cents
    &&& c.carried_in_cents == r.carried_in_cents
}

pub open spec fn name_or_empty(o: Option<String>) -> Seq<char> {
    match o {
        Some(s) => s@,
        None => Seq::empty(),
    }
}

/// A group view shows one run: its group, its categories in order, and their
/// totals.
pub open spec fn group_view_of(v: BudgetGroupView, run: Seq<RawBudgetRow>) -> bool {
    &&& run.len() > 0
    &&& run[0].group_id == Some(v.group_id)
    &&& v.group_name@ == name_or_empty(run[0].group_name)
    &&& v.sort_order == (match run[0].group_sort_order {
        Some(o) => o,
        None => 0,
    })
    &&& v.categories@.len() == run.len()
    &&& forall|k: int| 0 <= k < run.len() ==> category_row_of(run[k], #[trigger] v.categories@[k])
    &&& v.total_allocated_cents == allocated_total(run)
    &&& v.total_spent_cents == spent_total(run)
    &&& v.remaining_cents == allocated_total(run) - spent_total(run)
}

/// Where a run of a group begins.
pub open spec fn run_starts_at(rows: Seq<RawBudgetRow>, s: int) -> bool {
    s == 0 || !same_group(rows[s - 1], rows[s])
}

/// Rows `s..j` stay in the group of row `s`.
pub open spec fn stays_in_group(rows: Seq<RawBudgetRow>, s: int, j: int) -> bool {
    forall|k: int| s <= k < j ==> same_group(rows[s], #[trigger] rows[k])
}

/// The group totals can be summed in `i64`: every partial sum within a run,
/// and each run's remainder.
pub open spec fn rollups_fit(rows: Seq<RawBudgetRow>) -> bool {
    forall|s: int, j: int|
        0 <= s < j <= rows.len() && #[trigger] run_starts_at(rows, s) && #[trigger] stays_in_group(rows, s, j)
            ==> {
            &&& i64_fits(allocated_total(rows.subrange(s, j)))
            &&& i64_fits(spent_total(rows.subrange(s, j)))
            &&& (j == rows.len() || !same_group(rows[s], rows[j])) ==> i64_fits(
                allocated_total(rows.subrange(s, j)) - spent_total(rows.subrange(s, j)),
            )
        }
}

fn category_row(r: &RawBudgetRow) -> (c: BudgetCategoryRow)
    ensures
        category_row_of(*r, c),
{
    BudgetCategoryRow {
        category_id: r.category_id.clone(),
        category_name: r.category_name.clone(),
        kind: r.kind.clone(),
        allocated_cents: r.allocated_cents,
        spent_cents: r.spent_cents,
        carried_in_cents: r.carried_in_cents,
    }
}

fn clone_row(r: &RawBudgetRow) -> (c: RawBudgetRow)
    ensures
        c == *r,
{
    RawBudgetRow {
        category_id: r.category_id.clone(),
        category_name: r.category_name.clone(),
        kind: r.kind.clone(),
        group_id: clone_opt_string(&r.group_id),
        group_name: clone_opt_string(&r.group_name),
        group_sort_order: r.group_sort_order,
        allocated_cents: r.allocated_cents,
        spent_cents: r.spent_cents,
        carried_in_cents: r.carried_in_cents,
    }
}

/// The rows of one section, in order.
pub fn select_section(rows: &Vec<RawBudgetRow>, kind: &str, grouped: bool) -> (out: Vec<RawBudgetRow>)
    ensures
        out@ == section_rows(rows@, kind@, grouped),
{
    let mut out: Vec<RawBudgetRow> = Vec::new();
    let n = rows.len();
    for i in 0..n
        invariant
            n == rows@.len(),
            out@ == section_rows(rows@.take(i as int), kind@, grouped),
    {
        proof {
            assert(rows@.take(i + 1).drop_last() =~= rows@.take(i as int));
        }
        let r = &rows[i];
        if str_eq(r.kind.as_str(), kind) && r.group_id.is_some() == grouped {
            out.push(clone_row(r));
        }
    }
    assert(rows@.take(n as int) =~= rows@);
    out
}

fn same_group_exec(a: &RawBudgetRow, b: &RawBudgetRow) -> (r: bool)
    ensures
        r == same_group(*a, *b),
{
    match (&a.group_id, &b.group_id) {
        (Some(x), Some(y)) => str_eq(x.as_str(), y.as_str()),
        _ => false,
    }
}

proof fn lemma_allocated_total_push(rows: Seq<RawBudgetRow>, r: RawBudgetRow)
    ensures
        allocated_total(rows.push(r)) == allocated_total(rows) + r.allocated_cents,
        spent_total(rows.push(r)) == spent_total(rows) + r.spent_cents,
{
    assert(rows.push(r).drop_last() =~= rows);
}

/// Consecutive rows of one group become one group view, in order, with the
/// group's totals (`remaining` being allocated minus spent).
pub fn group_runs(rows: &Vec<RawBudgetRow>) -> (groups: Vec<BudgetGroupView>)
    requires
        forall|k: int| 0 <= k < rows@.len() ==> (#[trigger] rows@[k]).group_id is Some,
        rollups_fit(rows@),
    ensures
        groups@.len() == runs(rows@).len(),
        forall|k: int| 0 <= k < groups@.len() ==> group_view_of(#[trigger] groups@[k], runs(rows@)[k]),
{
    let mut groups: Vec<BudgetGroupView> = Vec::new();
    let n = rows.len();
    let mut i: usize = 0;
    let ghost mut last_start: int = 0;
    assert(rows@.take(0) =~= Seq::<RawBudgetRow>::empty());
    while i < n
        invariant
            n == rows@.len(),
            i <= n,
            0 <= last_start <= i,
            forall|k: int| 0 <= k < rows@.len() ==> (#[trigger] rows@[k]).group_id is Some,
            rollups_fit(rows@),
            groups@.len() == runs(rows@.take(i as int)).len(),
            forall|k: int|
                0 <= k < groups@.len() ==> group_view_of(
                    #[trigger] groups@[k],
                    runs(rows@.take(i as int))[k],
                ),
            i == 0 ==> runs(rows@.take(i as int)).len() == 0,
            i > 0 ==> {
                &&& last_start < i
                &&& runs(rows@.take(i as int)).len() > 0
                &&& runs(rows@.take(i as int)).last() == rows@.subrange(last_start, i as int)
                &&& stays_in_group(rows@, last_start, i as int)
                &&& i < n ==> !same_group(rows@[last_start], rows@[i as int])
            },
        decreases n - i,
    {
        let start = i;
        let first = &rows[start];
        let gid = match &first.group_id {
            Some(g) => g.clone(),
            None => String::new(),
        };
        let gname = match &first.group_name {
            Some(g) => g.clone(),
            None => String::new(),
        };
        let sort = match first.group_sort_order {
            Some(o) => o,
            None => 0,
        };
        let mut cats: Vec<BudgetCategoryRow> = Vec::new();
        let mut ta: i64 = 0;
        let mut ts: i64 = 0;
        let ghost prefix_runs = runs(rows@.take(start as int));
        proof {
            if start > 0 {
                assert(same_group(rows@[last_start], rows@[start - 1]));
                assert(!same_group(rows@[start - 1], rows@[start as int]));
            }
            assert(run_starts_at(rows@, start as int));
            assert(rows@.subrange(start as int, start as int) =~= Seq::<RawBudgetRow>::empty());
        }
        while i < n && (i == start || same_group_exec(&rows[i], first))
            invariant
                n == rows@.len(),
                start <= i <= n,
                first == rows@[start as int],
                start < n,
                forall|k: int| 0 <= k < rows@.len() ==> (#[trigger] rows@[k]).group_id is Some,
                rollups_fit(rows@),
                run_starts_at(rows@, start as int),
                stays_in_group(rows@, start as int, i as int),
                cats@.len() == i - start,
                forall|k: int|
                    0 <= k < cats@.len() ==> category_row_of(
                        rows@[start + k],
                        #[trigger] cats@[k],
                    ),
                ta == allocated_total(rows@.subrange(start as int, i as int)),
                ts == spent_total(rows@.subrange(start as int, i as int)),
                prefix_runs == runs(rows@.take(start as int)),
                i > start ==> runs(rows@.take(i as int)) == prefix_runs.push(
                    rows@.subrange(start as int, i as int),
                ),
                start == 0 ==> prefix_runs.len() == 0,
                start > 0 ==> {
                    &&& prefix_runs.len() > 0
                    &&& prefix_runs.last()[0] == rows@[last_start]
                    &&& !same_group(rows@[last_start], rows@[start as int])
                },
            decreases n - i,
        {
            let ghost old_sub = rows@.subrange(start as int, i as int);
            proof {
                assert(same_group(rows@[start as int], rows@[i as int]));
                assert(stays_in_group(rows@, start as int, i + 1));
                assert(rows@.subrange(start as int, i + 1) =~= old_sub.push(rows@[i as int]));
                lemma_allocated_total_push(old_sub, rows@[i as int]);
                assert(rows@.take(i + 1).drop_last() =~= rows@.take(i as int));
                if i == start {
                    assert(old_sub.push(rows@[i as int]) =~= seq![rows@[i as int]]);
                } else {
                    assert(runs(rows@.take(i as int)).last()[0] == rows@[start as int]);
                }
            }
            cats.push(category_row(&rows[i]));
            ta = ta + rows[i].allocated_cents;
            ts = ts + rows[i].spent_cents;
            i = i + 1;
        }
        proof {
            assert(i > start);
            if i < n {
                assert(!same_group(rows@[start as int], rows@[i as int]));
            }
        }
        let view = BudgetGroupView {
            group_id: gid,
            group_name: gname,
            sort_order: sort,
            total_allocated_cents: ta,
            total_spent_cents: ts,
            remaining_cents: ta - ts,
            categories: cats,
        };
        proof {
            let run = rows@.subrange(start as int, i as int);
            assert(run[0] == rows@[start as int]);
            assert forall|k: int| 0 <= k < run.len() implies category_row_of(
                run[k],
                #[trigger] view.categories@[k],
            ) by {
                assert(run[k] == rows@[start + k]);
            }
            assert(group_view_of(view, run));
        }
        groups.push(view);
        proof {
            last_start = start as int;
        }
    }
    assert(rows@.take(n as int) =~= rows@);
    groups
}


/// The budget's four sections: flow and sinking, each as groups and as
/// ungrouped categories.
#[derive(Debug)]
pub struct BudgetSections {
    pub flow_groups: Vec<BudgetGroupView>,
    pub flow_ungrouped: Vec<BudgetCategoryRow>,
    pub sinking_groups: Vec<BudgetGroupView>,
    pub sinking_ungrouped: Vec<BudgetCategoryRow>,
}

/// Group views showing the runs of a section, one for one.
pub open spec fn groups_show(groups: Seq<BudgetGroupView>, section: Seq<RawBudgetRow>) -> bool {
    &&& groups.len() == runs(section).len()
    &&& forall|k: int| 0 <= k < groups.len() ==> group_view_of(#[trigger] groups[k], runs(section)[k])
}

/// Category rows showing the rows of a section, one for one.
pub open spec fn rows_show(cats: Seq<BudgetCategoryRow>, section: Seq<RawBudgetRow>) -> bool {
    &&& cats.len() == section.len()
    &&& forall|k: int| 0 <= k < cats.len() ==> category_row_of(section[k], #[trigger] cats[k])
}

fn ungrouped_rows(section: &Vec<RawBudgetRow>) -> (cats: Vec<BudgetCategoryRow>)
    ensures
        rows_show(cats@, section@),
{
    let mut cats: Vec<BudgetCategoryRow> = Vec::new();
    let n = section.len();
    for i in 0..n
        invariant
            n == section@.len(),
            cats@.len() == i,
            forall|k: int| 0 <= k < i ==> category_row_of(section@[k], #[trigger] cats@[k]),
    {
        cats.push(category_row(&section[i]));
    }
    cats
}

proof fn lemma_section_grouped(rows: Seq<RawBudgetRow>, kind: Seq<char>)
    ensures
        forall|k: int|
            0 <= k < section_rows(rows, kind, true).len() ==> (#[trigger] section_rows(
                rows,
                kind,
                true,
            )[k]).group_id is Some,
    decreases rows.len(),
{
    if rows.len() > 0 {
        lemma_section_grouped(rows.drop_last(), kind);
    }
}

/// Splits the month's rows into the four sections: rows of other kinds are
/// left out, and grouped rows form one group per run of the same group.
pub fn budget_sections(rows: &Vec<RawBudgetRow>) -> (s: BudgetSections)
    requires
        rollups_fit(section_rows(rows@, "flow"@, true)),
        rollups_fit(section_rows(rows@, "sinking"@, true)),
    ensures
        groups_show(s.flow_groups@, section_rows(rows@, "flow"@, true)),
        rows_show(s.flow_ungrouped@, section_rows(rows@, "flow"@, false)),
        groups_show(s.sinking_groups@, section_rows(rows@, "sinking"@, true)),
        rows_show(s.sinking_ungrouped@, section_rows(rows@, "sinking"@, false)),
{
    let flow_grouped = select_section(rows, "flow", true);
    let flow_plain = select_section(rows, "flow", false);
    let sinking_grouped = select_section(rows, "sinking", true);
    let sinking_plain = select_section(rows, "sinking", false);
    proof {
        lemma_section_grouped(rows@, "flow"@);
        lemma_section_grouped(rows@, "sinking"@);
    }
    let flow_groups = group_runs(&flow_grouped);
    let sinking_groups = group_runs(&sinking_grouped);
    BudgetSections {
        flow_groups,
        flow_ungrouped: ungrouped_rows(&flow_plain),
        sinking_groups,
        sinking_ungrouped: ungrouped_rows(&sinking_plain),
    }
}

/// The row that a category's figures make.
pub open spec fn spec_row(c: BudgetCategory, f: (int, int, int)) -> RawBudgetRow {
    RawBudgetRow {
        category_id: c.category_id,
        category_name: c.category_name,
        kind: c.kind,
        group_id: c.group_id,
        group_name: c.group_name,
        group_sort_order: c.group_sort_order,
        allocated_cents: f.0 as i64,
        spent_cents: f.1 as i64,
        carried_in_cents: f.2 as i64,
    }
}

/// The month's rows, one per category.
pub open spec fn spec_rows(
    cats: Seq<BudgetCategory>,
    evs: Seq<AllocationEvent>,
    acts: Seq<SplitActivity>,
    month: Seq<char>,
) -> Seq<RawBudgetRow> {
    Seq::new(cats.len(), |k: int| spec_row(cats[k], category_figures(cats[k], evs, acts, month)))
}

#[derive(Debug)]
pub struct IncomeCategory {
    pub id: String,
    pub name: String,
}

#[derive(Debug)]
pub struct IncomeCategoryRow {
    pub income_category_id: String,
    pub name: String,
    /// sum of income splits on transactions dated in the current month
    pub actual_cents: i64,
}

pub open spec fn income_actual(c: IncomeCategory, acts: Seq<SplitActivity>, month: Seq<char>) -> int {
    activity_sum(acts, "income"@, c.id@, Some(month), false)
}

/// The income section: one row per income category with its splits dated in
/// the month, or "integer overflow".
pub fn income_rows(cats: &Vec<IncomeCategory>, acts: &Vec<SplitActivity>, month: &str) -> (r: Result<Vec<IncomeCategoryRow>, String>)
    ensures
        match r {
            Ok(rows) => rows@.len() == cats@.len() && forall|k: int|
                0 <= k < cats@.len() ==> {
                    &&& (#[trigger] rows@[k]).income_category_id == cats@[k].id
                    &&& rows@[k].name == cats@[k].name
                    &&& rows@[k].actual_cents == income_actual(cats@[k], acts@, month@)
                },
            Err(e) => (exists|k: int|
                0 <= k < cats@.len() && !i64_fits(income_actual(#[trigger] cats@[k], acts@, month@)))
                && e@ == "integer overflow"@,
        },
{
    let mut rows: Vec<IncomeCategoryRow> = Vec::new();
    let n = cats.len();
    for i in 0..n
        invariant
            n == cats@.len(),
            rows@.len() == i,
            forall|k: int|
                0 <= k < i ==> {
                    &&& (#[trigger] rows@[k]).income_category_id == cats@[k].id
                    &&& rows@[k].name == cats@[k].name
                    &&& rows@[k].actual_cents == income_actual(cats@[k], acts@, month@)
                },
    {
        let c = &cats[i];
        match sum_activity(acts, "income", c.id.as_str(), Some(month), false) {
            Some(v) => rows.push(
                IncomeCategoryRow { income_category_id: c.id.clone(), name: c.name.clone(), actual_cents: v },
            ),
            None => {
                assert(!i64_fits(income_actual(cats@[i as int], acts@, month@)));
                return Err(overflow_error());
            },
        }
    }
    Ok(rows)
}

pub open spec fn actuals_total(rows: Seq<IncomeCategoryRow>) -> int
    decreases rows.len(),
{
    if rows.len() == 0 {
        0
    } else {
        actuals_total(rows.drop_last()) + rows.last().actual_cents
    }
}

pub open spec fn income_total(cats: Seq<IncomeCategory>, acts: Seq<SplitActivity>, month: Seq<char>) -> int
    decreases cats.len(),
{
    if cats.len() == 0 {
        0
    } else {
        income_total(cats.drop_last(), acts, month) + income_actual(cats.last(), acts, month)
    }
}

/// The running totals of the income rows stay in the `i64` range.
pub open spec fn income_totals_fit(cats: Seq<IncomeCategory>, acts: Seq<SplitActivity>, month: Seq<char>) -> bool {
    forall|i: int| 0 <= i <= cats.len() ==> #[trigger] i64_fits(income_total(cats.take(i), acts, month))
}

#[derive(Debug)]
pub struct ReallocationEntry {
    /// ID of the negative (source) allocation_event row
    pub id: String,
    pub from_category_id: String,
    pub from_name: String,
    pub to_category_id: String,
    pub to_name: String,
    /// absolute value of the moved amount
    pub amount_cents: i64,
    pub created_at: String,
}

/// A row of the allocation event log as the reallocation log reads it:
/// the event with its id and creation time.
#[derive(Debug)]
pub struct AllocationLogRow {
    pub id: String,
    pub category_id: String,
    pub month: String,
    pub amount_cents: i64,
    pub kind: AllocationKind,
    pub counterpart_category_id: Option<String>,
    pub created_at: String,
}

/// The name of the first category with the given id, if any.
pub open spec fn name_of(cats: Seq<BudgetCategory>, id: Seq<char>) -> Option<Seq<char>>
    decreases cats.len(),
{
    if cats.len() == 0 {
        None
    } else if cats[0].category_id@ == id {
        Some(cats[0].category_name@)
    } else {
        name_of(cats.drop_first(), id)
    }
}

/// The name of the first category with the given id, if any.
pub fn category_name_of(cats: &Vec<BudgetCategory>, id: &str) -> (r: Option<String>)
    ensures
        match r {
            Some(n) => name_of(cats@, id@) == Some(n@),
            None => name_of(cats@, id@) is None,
        },
{
    let n = cats.len();
    assert(cats@.skip(0) =~= cats@);
    for i in 0..n
        invariant
            n == cats@.len(),
            name_of(cats@, id@) == name_of(cats@.skip(i as int), id@),
    {
        assert(cats@.skip(i as int)[0] == cats@[i as int]);
        assert(cats@.skip(i as int).drop_first() =~= cats@.skip(i + 1));
        if str_eq(cats[i].category_id.as_str(), id) {
            return Some(cats[i].category_name.clone());
        }
    }
    assert(cats@.skip(n as int) =~= Seq::<BudgetCategory>::empty());
    None
}

pub type LogEntryView = (Seq<char>, Seq<char>, Seq<char>, Seq<char>, Seq<char>, int, Seq<char>);

/// A log row is the source side of a reallocation in the month, between
/// two categories that both exist.
pub open spec fn log_selected(r: AllocationLogRow, cats: Seq<BudgetCategory>, month: Seq<char>) -> bool {
    &&& r.month@ == month
    &&& r.kind == AllocationKind::Reallocate
    &&& r.amount_cents < 0
    &&& r.counterpart_category_id is Some
    &&& name_of(cats, r.category_id@) is Some
    &&& name_of(cats, r.counterpart_category_id->0@) is Some
}

/// The log entry of a selected row: from its category to the counterpart,
/// with both names and the moved amount as a positive number.
pub open spec fn log_entry(r: AllocationLogRow, cats: Seq<BudgetCategory>) -> LogEntryView {
    (
        r.id@,
        r.category_id@,
        name_of(cats, r.category_id@)->0,
        r.counterpart_category_id->0@,
        name_of(cats, r.counterpart_category_id->0@)->0,
        -(r.amount_cents as int),
        r.created_at@,
    )
}

/// The reallocation log of a month, in the order of the rows.
pub open spec fn log_entries(rows: Seq<AllocationLogRow>, cats: Seq<BudgetCategory>, month: Seq<char>) -> Seq<
    LogEntryView,
>
    decreases rows.len(),
{
    if rows.len() == 0 {
        Seq::empty()
    } else {
        log_entries(rows.drop_last(), cats, month) + if log_selected(rows.last(), cats, month) {
            seq![log_entry(rows.last(), cats)]
        } else {
            Seq::<LogEntryView>::empty()
        }
    }
}

/// No selected row moves `i64::MIN`, whose absolute value `i64` cannot hold.
pub open spec fn log_fits(rows: Seq<AllocationLogRow>, cats: Seq<BudgetCategory>, month: Seq<char>) -> bool {
    forall|k: int|
        0 <= k < rows.len() && log_selected(#[trigger] rows[k], cats, month) ==> rows[k].amount_cents
            != i64::MIN
}

pub open spec fn entry_view(e: ReallocationEntry) -> LogEntryView {
    (e.id@, e.from_category_id@, e.from_name@, e.to_category_id@, e.to_name@, e.amount_cents as int, e.created_at@)
}

/// The reallocation log of a month: for each source side of a
/// reallocation in the month (a negative reallocate event) whose two
/// categories exist, the move from its category to the counterpart with
/// both names and the amount as a positive number; in the order of the
/// rows. "integer overflow" when such a row moves `i64::MIN`.
pub fn reallocation_log(month: &str, rows: &Vec<AllocationLogRow>, cats: &Vec<BudgetCategory>) -> (r: Result<
    Vec<ReallocationEntry>,
    String,
>)
    ensures
        match r {
            Ok(v) => log_fits(rows@, cats@, month@) && v@.map_values(|e: ReallocationEntry| entry_view(e))
                == log_entries(rows@, cats@, month@),
            Err(e) => !log_fits(rows@, cats@, month@) && e@ == "integer overflow"@,
        },
{
    let mut out: Vec<ReallocationEntry> = Vec::new();
    let n = rows.len();
    assert(out@.map_values(|e: ReallocationEntry| entry_view(e)) =~= log_entries(rows@.take(0), cats@, month@));
    for i in 0..n
        invariant
            n == rows@.len(),
            out@.map_values(|e: ReallocationEntry| entry_view(e)) == log_entries(rows@.take(i as int), cats@, month@),
            forall|k: int|
                0 <= k < i && log_selected(#[trigger] rows@[k], cats@, month@) ==> rows@[k].amount_cents
                    != i64::MIN,
    {
        let row = &rows[i];
        let ghost before = out@.map_values(|e: ReallocationEntry| entry_view(e));
        proof {
            assert(rows@.take(i + 1).drop_last() =~= rows@.take(i as int));
            assert(rows@.take(i + 1).last() == rows@[i as int]);
        }
        let mut added = false;
        if str_eq(row.month.as_str(), month) && row.kind == AllocationKind::Reallocate && row.amount_cents < 0 {
            match &row.counterpart_category_id {
                Some(to) => {
                    let from_name = category_name_of(cats, row.category_id.as_str());
                    let to_name = category_name_of(cats, to.as_str());
                    match (from_name, to_name) {
                        (Some(f), Some(t)) => {
                            if row.amount_cents == i64::MIN {
                                assert(log_selected(rows@[i as int], cats@, month@));
                                return Err(String::from_str("integer overflow"));
                            }
                            let e = ReallocationEntry {
                                id: row.id.clone(),
                                from_category_id: row.category_id.clone(),
                                from_name: f,
                                to_category_id: to.clone(),
                                to_name: t,
                                amount_cents: -row.amount_cents,
                                created_at: row.created_at.clone(),
                            };
                            out.push(e);
                            added = true;
                            assert(out@.map_values(|e: ReallocationEntry| entry_view(e)) =~= before.push(
                                log_entry(rows@[i as int], cats@),
                            ));
                        },
                        _ => {},
                    }
                },
                None => {},
            }
        }
        if !added {
            assert(!log_selected(rows@[i as int], cats@, month@));
            assert(out@.map_values(|e: ReallocationEntry| entry_view(e)) =~= before);
        }
    }
    assert(rows@.take(n as int) =~= rows@);
    Ok(out)
}

#[derive(Debug)]
pub struct BudgetMonthView {
    pub month: String,
    /// income splits for month minus user-driven allocations (excludes carry events)
    pub left_to_allocate_cents: i64,
    pub income_rows: Vec<IncomeCategoryRow>,
    pub flow_groups: Vec<BudgetGroupView>,
    pub flow_ungrouped: Vec<BudgetCategoryRow>,
    pub sinking_groups: Vec<BudgetGroupView>,
    pub sinking_ungrouped: Vec<BudgetCategoryRow>,
    /// reallocation pairs for this month, newest first; one entry per pair (source side)
    pub reallocation_log: Vec<ReallocationEntry>,
    /// true once close_month has been called for this month
    pub is_closed: bool,
}

/// Income for the month minus the month's user-driven allocations (carry
/// events excluded).
pub open spec fn left_to_allocate(
    income_cats: Seq<IncomeCategory>,
    evs: Seq<AllocationEvent>,
    acts: Seq<SplitActivity>,
    month: Seq<char>,
) -> int {
    income_total(income_cats, acts, month) - event_sum(evs, None, Some(month), Some(false))
}

/// Every figure that the month's view reads fits in `i64`.
pub open spec fn month_figures_fit(
    cats: Seq<BudgetCategory>,
    income_cats: Seq<IncomeCategory>,
    evs: Seq<AllocationEvent>,
    acts: Seq<SplitActivity>,
    month: Seq<char>,
) -> bool {
    &&& forall|k: int| 0 <= k < cats.len() ==> figures_fit(category_figures(#[trigger] cats[k], evs, acts, month))
    &&& forall|k: int| 0 <= k < income_cats.len() ==> i64_fits(income_actual(#[trigger] income_cats[k], acts, month))
    &&& i64_fits(event_sum(evs, None, Some(month), Some(false)))
}

/// The sums that the view adds up itself stay in the `i64` range, whenever
/// the figures it reads do.
pub open spec fn month_view_defined(
    cats: Seq<BudgetCategory>,
    income_cats: Seq<IncomeCategory>,
    evs: Seq<AllocationEvent>,
    acts: Seq<SplitActivity>,
    month: Seq<char>,
) -> bool {
    month_figures_fit(cats, income_cats, evs, acts, month) ==> {
        &&& rollups_fit(section_rows(spec_rows(cats, evs, acts, month), "flow"@, true))
        &&& rollups_fit(section_rows(spec_rows(cats, evs, acts, month), "sinking"@, true))
        &&& income_totals_fit(income_cats, acts, month)
        &&& i64_fits(left_to_allocate(income_cats, evs, acts, month))
    }
}

/// The month's budget view. The category rows and the income rows come in
/// the order given (the caller lists categories by kind, group order and
/// name, and income categories by name, leaving hidden ones out); the
/// reallocation log and the closed flag are passed through. "integer
/// overflow" when a figure read from the ledger leaves the `i64` range.
pub fn budget_month_view(
    month: &str,
    cats: &Vec<BudgetCategory>,
    income_cats: &Vec<IncomeCategory>,
    evs: &Vec<AllocationEvent>,
    acts: &Vec<SplitActivity>,
    is_closed: bool,
    reallocation_log: Vec<ReallocationEntry>,
) -> (r: Result<BudgetMonthView, String>)
    requires
        month_view_defined(cats@, income_cats@, evs@, acts@, month@),
    ensures
        r is Ok <==> month_figures_fit(cats@, income_cats@, evs@, acts@, month@),
        r matches Err(e) ==> e@ == "integer overflow"@,
        r matches Ok(v) ==> {
            let rows = spec_rows(cats@, evs@, acts@, month@);
            &&& v.month@ == month@
            &&& v.left_to_allocate_cents == left_to_allocate(income_cats@, evs@, acts@, month@)
            &&& v.income_rows@.len() == income_cats@.len()
            &&& forall|k: int|
                0 <= k < income_cats@.len() ==> {
                    &&& (#[trigger] v.income_rows@[k]).income_category_id == income_cats@[k].id
                    &&& v.income_rows@[k].name == income_cats@[k].name
                    &&& v.income_rows@[k].actual_cents == income_actual(income_cats@[k], acts@, month@)
                }
            &&& groups_show(v.flow_groups@, section_rows(rows, "flow"@, true))
            &&& rows_show(v.flow_ungrouped@, section_rows(rows, "flow"@, false))
            &&& groups_show(v.sinking_groups@, section_rows(rows, "sinking"@, true))
            &&& rows_show(v.sinking_ungrouped@, section_rows(rows, "sinking"@, false))
            &&& v.reallocation_log == reallocation_log
            &&& v.is_closed == is_closed
        },
{
    let rows = match budget_rows(cats, evs, acts, month) {
        Ok(rows) => rows,
        Err(e) => return Err(e),
    };
    assert(rows@ =~= spec_rows(cats@, evs@, acts@, month@));
    let incomes = match income_rows(income_cats, acts, month) {
        Ok(rows) => rows,
        Err(e) => return Err(e),
    };
    let allocated = match sum_events(evs, None, Some(month), Some(false)) {
        Some(v) => v,
        None => return Err(overflow_error()),
    };
    assert forall|k: int| 0 <= k < income_cats@.len() implies i64_fits(
        income_actual(#[trigger] income_cats@[k], acts@, month@),
    ) by {
        assert(incomes@[k].actual_cents == income_actual(income_cats@[k], acts@, month@));
    }
    assert(month_figures_fit(cats@, income_cats@, evs@, acts@, month@));
    let sections = budget_sections(&rows);
    let mut total_income: i64 = 0;
    let n = incomes.len();
    for i in 0..n
        invariant
            n == incomes@.len() == income_cats@.len(),
            forall|k: int|
                0 <= k < n ==> (#[trigger] incomes@[k]).actual_cents == income_actual(
                    income_cats@[k],
                    acts@,
                    month@,
                ),
            income_totals_fit(income_cats@, acts@, month@),
            total_income == income_total(income_cats@.take(i as int), acts@, month@),
    {
        proof {
            assert(income_cats@.take(i + 1).drop_last() =~= income_cats@.take(i as int));
            assert(i64_fits(income_total(income_cats@.take(i + 1), acts@, month@)));
        }
        total_income = total_income + incomes[i].actual_cents;
    }
    assert(income_cats@.take(n as int) =~= income_cats@);
    let left = total_income - allocated;
    Ok(BudgetMonthView {
        month: String::from_str(month),
        left_to_allocate_cents: left,
        income_rows: incomes,
        flow_groups: sections.flow_groups,
        flow_ungrouped: sections.flow_ungrouped,
        sinking_groups: sections.sinking_groups,
        sinking_ungrouped: sections.sinking_ungrouped,
        reallocation_log,
        is_closed,
    })
}


/// Whether the group totals of a grouped section can be summed in `i64`
/// (`rollups_fit`).
pub fn rollups_fit_exec(rows: &Vec<RawBudgetRow>) -> (r: bool)
    requires
        forall|k: int| 0 <= k < rows@.len() ==> (#[trigger] rows@[k]).group_id is Some,
    ensures
        r == rollups_fit(rows@),
{
    let n = rows.len();
    if n == 0 {
        return true;
    }
    let mut start: usize = 0;
    let mut ta: i64 = 0;
    let mut ts: i64 = 0;
    let mut i: usize = 0;
    while i < n
        invariant
            n == rows@.len(),
            n > 0,
            forall|k: int| 0 <= k < rows@.len() ==> (#[trigger] rows@[k]).group_id is Some,
            start <= i <= n,
            i < n ==> start < n,
            i > 0 ==> start < i,
            run_starts_at(rows@, start as int),
            i > 0 ==> stays_in_group(rows@, start as int, i as int),
            i > 0 ==> ta == allocated_total(rows@.subrange(start as int, i as int)),
            i > 0 ==> ts == spent_total(rows@.subrange(start as int, i as int)),
            i == 0 ==> ta == 0 && ts == 0 && start == 0,
            forall|s: int, j: int|
                0 <= s < j <= i && #[trigger] run_starts_at(rows@, s) && #[trigger] stays_in_group(rows@, s, j)
                    ==> {
                    &&& i64_fits(allocated_total(rows@.subrange(s, j)))
                    &&& i64_fits(spent_total(rows@.subrange(s, j)))
                    &&& (j == rows@.len() || !same_group(rows@[s], rows@[j])) ==> i64_fits(
                        allocated_total(rows@.subrange(s, j)) - spent_total(rows@.subrange(s, j)),
                    )
                },
        decreases n - i,
    {
        if i > 0 && !same_group_exec(&rows[i - 1], &rows[i]) {
            proof {
                assert(same_group(rows@[start as int], rows@[i - 1]));
            }
            start = i;
            ta = 0;
            ts = 0;
        }
        let ghost old_sub = rows@.subrange(start as int, i as int);
        proof {
            if start == i {
                assert(old_sub =~= Seq::<RawBudgetRow>::empty());
            } else {
                assert(same_group(rows@[start as int], rows@[i - 1]));
                assert(same_group(rows@[start as int], rows@[i as int]));
            }
            assert(rows@.subrange(start as int, i + 1) =~= old_sub.push(rows@[i as int]));
            lemma_allocated_total_push(old_sub, rows@[i as int]);
            assert(stays_in_group(rows@, start as int, i + 1));
        }
        let a = ta as i128 + rows[i].allocated_cents as i128;
        let b = ts as i128 + rows[i].spent_cents as i128;
        if a < i64::MIN as i128 || a > i64::MAX as i128 || b < i64::MIN as i128 || b > i64::MAX as i128 {
            proof {
                assert(run_starts_at(rows@, start as int) && stays_in_group(rows@, start as int, i + 1));
                assert(allocated_total(rows@.subrange(start as int, i + 1)) == a);
                assert(spent_total(rows@.subrange(start as int, i + 1)) == b);
            }
            return false;
        }
        ta = a as i64;
        ts = b as i64;
        let end = i + 1 == n || !same_group_exec(&rows[start], &rows[i + 1]);
        if end && ((ta as i128 - ts as i128) < i64::MIN as i128 || (ta as i128 - ts as i128) > i64::MAX
            as i128) {
            proof {
                assert(run_starts_at(rows@, start as int) && stays_in_group(rows@, start as int, i + 1));
                assert(allocated_total(rows@.subrange(start as int, i + 1)) == ta);
                assert(spent_total(rows@.subrange(start as int, i + 1)) == ts);
            }
            return false;
        }
        proof {
            assert forall|s: int, j: int|
                0 <= s < j <= i + 1 && #[trigger] run_starts_at(rows@, s) && #[trigger] stays_in_group(
                    rows@,
                    s,
                    j,
                ) implies {
                &&& i64_fits(allocated_total(rows@.subrange(s, j)))
                &&& i64_fits(spent_total(rows@.subrange(s, j)))
                &&& (j == rows@.len() || !same_group(rows@[s], rows@[j])) ==> i64_fits(
                    allocated_total(rows@.subrange(s, j)) - spent_total(rows@.subrange(s, j)),
                )
            } by {
                if j == i + 1 {
                    if s < start {
                        assert(same_group(rows@[s], rows@[start - 1]));
                        assert(same_group(rows@[s], rows@[start as int]));
                    }
                    if s > start {
                        assert(same_group(rows@[s], rows@[s - 1]));
                        assert(same_group(rows@[s], rows@[s]));
                        assert(same_group(rows@[start as int], rows@[s - 1]));
                        assert(same_group(rows@[start as int], rows@[s]));
                    }
                    assert(s == start);
                }
            }
        }
        i = i + 1;
    }
    true
}

/// Whether `month_view_defined` holds, so that `budget_month_view` may be
/// asked for the month.
pub fn month_view_checks(
    month: &str,
    cats: &Vec<BudgetCategory>,
    income_cats: &Vec<IncomeCategory>,
    evs: &Vec<AllocationEvent>,
    acts: &Vec<SplitActivity>,
) -> (r: bool)
    ensures
        r == month_view_defined(cats@, income_cats@, evs@, acts@, month@),
{
    let rows = match budget_rows(cats, evs, acts, month) {
        Ok(rows) => rows,
        Err(_) => return true,
    };
    assert(rows@ =~= spec_rows(cats@, evs@, acts@, month@));
    let incomes = match income_rows(income_cats, acts, month) {
        Ok(rows) => rows,
        Err(_) => return true,
    };
    let allocated = match sum_events(evs, None, Some(month), Some(false)) {
        Some(v) => v,
        None => return true,
    };
    assert forall|k: int| 0 <= k < income_cats@.len() implies i64_fits(
        income_actual(#[trigger] income_cats@[k], acts@, month@),
    ) by {
        assert(incomes@[k].actual_cents == income_actual(income_cats@[k], acts@, month@));
    }
    assert(month_figures_fit(cats@, income_cats@, evs@, acts@, month@));
    let flow = select_section(&rows, "flow", true);
    proof {
        lemma_section_grouped(rows@, "flow"@);
    }
    if !rollups_fit_exec(&flow) {
        return false;
    }
    let sinking = select_section(&rows, "sinking", true);
    proof {
        lemma_section_grouped(rows@, "sinking"@);
    }
    if !rollups_fit_exec(&sinking) {
        return false;
    }
    assert(rollups_fit(section_rows(spec_rows(cats@, evs@, acts@, month@), "flow"@, true)));
    assert(rollups_fit(section_rows(spec_rows(cats@, evs@, acts@, month@), "sinking"@, true)));
    let mut total: i64 = 0;
    let n = incomes.len();
    for i in 0..n
        invariant
            month_figures_fit(cats@, income_cats@, evs@, acts@, month@),
            rollups_fit(section_rows(spec_rows(cats@, evs@, acts@, month@), "flow"@, true)),
            rollups_fit(section_rows(spec_rows(cats@, evs@, acts@, month@), "sinking"@, true)),
            n == incomes@.len() == income_cats@.len(),
            forall|k: int|
                0 <= k < n ==> (#[trigger] incomes@[k]).actual_cents == income_actual(
                    income_cats@[k],
                    acts@,
                    month@,
                ),
            forall|k: int| 0 <= k <= i ==> #[trigger] i64_fits(income_total(income_cats@.take(k), acts@, month@)),
            total == income_total(income_cats@.take(i as int), acts@, month@),
    {
        proof {
            assert(income_cats@.take(i + 1).drop_last() =~= income_cats@.take(i as int));
        }
        let t = total as i128 + incomes[i].actual_cents as i128;
        if t < i64::MIN as i128 || t > i64::MAX as i128 {
            proof {
                assert(income_total(income_cats@.take(i + 1), acts@, month@) == t);
                assert(!i64_fits(income_total(income_cats@.take(i + 1), acts@, month@)));
            }
            return false;
        }
        total = t as i64;
        proof {
            assert forall|k: int| 0 <= k <= i + 1 implies #[trigger] i64_fits(
                income_total(income_cats@.take(k), acts@, month@),
            ) by {
                if k == i + 1 {
                    assert(income_total(income_cats@.take(k), acts@, month@) == total);
                }
            }
        }
    }
    assert(income_cats@.take(n as int) =~= income_cats@);
    let left = total as i128 - allocated as i128;
    left >= i64::MIN as i128 && left <= i64::MAX as i128
}

/// The event that setting a category's allocation for a month appends: the
/// difference between the new amount and the month's current total (all
/// events of the category and month), or none when they agree already.
pub fn set_allocation_event(evs: &Vec<AllocationEvent>, category_id: &str, month: &str, new_amount_cents: i64) -> (r: Result<Option<AllocationEvent>, String>)
    requires
        new_amount_cents >= 0 && i64_fits(event_sum(evs@, Some(category_id@), Some(month@), None))
            ==> i64_fits(new_amount_cents - event_sum(evs@, Some(category_id@), Some(month@), None)),
    ensures
        ({
            let total = event_sum(evs@, Some(category_id@), Some(month@), None);
            match r {
                Err(e) => if new_amount_cents < 0 {
                    e@ == "Allocation amount must be non-negative"@
                } else {
                    !i64_fits(total) && e@ == "integer overflow"@
                },
                Ok(None) => new_amount_cents >= 0 && total == new_amount_cents,
                Ok(Some(ev)) => {
                    &&& new_amount_cents >= 0
                    &&& total != new_amount_cents
                    &&& ev.category_id@ == category_id@
                    &&& ev.month@ == month@
                    &&& ev.amount_cents == new_amount_cents - total
                    &&& ev.kind == AllocationKind::Allocate
                    &&& ev.counterpart_category_id is None
                },
            }
        }),
{
    if new_amount_cents < 0 {
        return Err(String::from_str("Allocation amount must be non-negative"));
    }
    let current = match sum_events(evs, Some(category_id), Some(month), None) {
        Some(v) => v,
        None => return Err(overflow_error()),
    };
    let delta = new_amount_cents - current;
    if delta == 0 {
        return Ok(None);
    }
    Ok(
        Some(
            AllocationEvent {
                category_id: String::from_str(category_id),
                month: String::from_str(month),
                amount_cents: delta,
                kind: AllocationKind::Allocate,
                counterpart_category_id: None,
            },
        ),
    )
}

proof fn lemma_event_sum_push(
    evs: Seq<AllocationEvent>,
    e: AllocationEvent,
    cat: Option<Seq<char>>,
    month: Option<Seq<char>>,
    carry: Option<bool>,
)
    ensures
        event_sum(evs.push(e), cat, month, carry) == event_sum(evs, cat, month, carry) + if event_selected(
            e,
            cat,
            month,
            carry,
        ) {
            e.amount_cents as int
        } else {
            0
        },
{
    assert(evs.push(e).drop_last() =~= evs);
}

/// After the event that setting an allocation appends, the category's total
/// for the month is the amount that was set.
pub proof fn set_allocation_sets_the_total(
    evs: Seq<AllocationEvent>,
    ev: AllocationEvent,
    category_id: Seq<char>,
    month: Seq<char>,
    new_amount: int,
)
    requires
        ev.category_id@ == category_id,
        ev.month@ == month,
        ev.amount_cents == new_amount - event_sum(evs, Some(category_id), Some(month), None),
    ensures
        event_sum(evs.push(ev), Some(category_id), Some(month), None) == new_amount,
{
    lemma_event_sum_push(evs, ev, Some(category_id), Some(month), None);
}

/// Whether `set_allocation_event` may be asked to set this amount: the
/// difference from the current total stays in `i64` whenever the total does.
pub fn allocation_delta_checks(evs: &Vec<AllocationEvent>, category_id: &str, month: &str, new_amount_cents: i64) -> (r: bool)
    ensures
        r == (new_amount_cents >= 0 && i64_fits(event_sum(evs@, Some(category_id@), Some(month@), None))
            ==> i64_fits(new_amount_cents - event_sum(evs@, Some(category_id@), Some(month@), None))),
{
    if new_amount_cents < 0 {
        return true;
    }
    match sum_events(evs, Some(category_id), Some(month), None) {
        Some(total) => {
            let d = new_amount_cents as i128 - total as i128;
            d >= i64::MIN as i128 && d <= i64::MAX as i128
        },
        None => true,
    }
}

/// The pair of events that moving money between two categories appends:
/// minus the amount on the source, plus the amount on the destination, each
/// naming the other as counterpart.
pub fn reallocation_events(from_category_id: &str, to_category_id: &str, month: &str, amount_cents: i64) -> (r: Result<(AllocationEvent, AllocationEvent), String>)
    ensures
        match r {
            Err(e) => if amount_cents <= 0 {
                e@ == "Reallocation amount must be positive"@
            } else {
                from_category_id@ == to_category_id@ && e@
                    == "Source and destination must be different categories"@
            },
            Ok((a, b)) => {
                &&& amount_cents > 0
                &&& from_category_id@ != to_category_id@
                &&& a.category_id@ == from_category_id@
                &&& a.month@ == month@
                &&& a.amount_cents == -amount_cents
                &&& a.kind == AllocationKind::Reallocate
                &&& a.counterpart_category_id matches Some(c) && c@ == to_category_id@
                &&& b.category_id@ == to_category_id@
                &&& b.month@ == month@
                &&& b.amount_cents == amount_cents
                &&& b.kind == AllocationKind::Reallocate
                &&& b.counterpart_category_id matches Some(c) && c@ == from_category_id@
            },
        },
{
    if amount_cents <= 0 {
        return Err(String::from_str("Reallocation amount must be positive"));
    }
    if str_eq(from_category_id, to_category_id) {
        return Err(String::from_str("Source and destination must be different categories"));
    }
    let a = AllocationEvent {
        category_id: String::from_str(from_category_id),
        month: String::from_str(month),
        amount_cents: -amount_cents,
        kind: AllocationKind::Reallocate,
        counterpart_category_id: Some(String::from_str(to_category_id)),
    };
    let b = AllocationEvent {
        category_id: String::from_str(to_category_id),
        month: String::from_str(month),
        amount_cents,
        kind: AllocationKind::Reallocate,
        counterpart_category_id: Some(String::from_str(from_category_id)),
    };
    Ok((a, b))
}

/// A reallocation moves money without creating any: for every month, the
/// total of user-driven allocations (what left-to-allocate subtracts) is
/// unchanged, while the source loses the amount and the destination gains it.
pub proof fn reallocation_is_net_zero(
    evs: Seq<AllocationEvent>,
    a: AllocationEvent,
    b: AllocationEvent,
    amount: int,
    q: Seq<char>,
)
    requires
        a.month@ == b.month@,
        a.kind == AllocationKind::Reallocate,
        b.kind == AllocationKind::Reallocate,
        a.amount_cents == -amount,
        b.amount_cents == amount,
        a.category_id@ != b.category_id@,
    ensures
        event_sum(evs.push(a).push(b), None, Some(q), Some(false)) == event_sum(evs, None, Some(q), Some(false)),
        event_sum(evs.push(a).push(b), Some(a.category_id@), Some(a.month@), Some(false))
            == event_sum(evs, Some(a.category_id@), Some(a.month@), Some(false)) - amount,
        event_sum(evs.push(a).push(b), Some(b.category_id@), Some(b.month@), Some(false))
            == event_sum(evs, Some(b.category_id@), Some(b.month@), Some(false)) + amount,
{
    lemma_event_sum_push(evs, a, None, Some(q), Some(false));
    lemma_event_sum_push(evs.push(a), b, None, Some(q), Some(false));
    lemma_event_sum_push(evs, a, Some(a.category_id@), Some(a.month@), Some(false));
    lemma_event_sum_push(evs.push(a), b, Some(a.category_id@), Some(a.month@), Some(false));
    lemma_event_sum_push(evs, a, Some(b.category_id@), Some(b.month@), Some(false));
    lemma_event_sum_push(evs.push(a), b, Some(b.category_id@), Some(b.month@), Some(false));
}

/// Carry events are structural: appending any number of them changes no
/// category's allocated figure and no month's user-driven total.
pub proof fn carries_are_not_allocations(
    evs: Seq<AllocationEvent>,
    carries: Seq<AllocationEvent>,
    cat: Option<Seq<char>>,
    month: Option<Seq<char>>,
)
    requires
        forall|k: int| 0 <= k < carries.len() ==> (#[trigger] carries[k]).kind == AllocationKind::Carry,
    ensures
        event_sum(evs + carries, cat, month, Some(false)) == event_sum(evs, cat, month, Some(false)),
    decreases carries.len(),
{
    if carries.len() == 0 {
        assert(evs + carries =~= evs);
    } else {
        carries_are_not_allocations(evs, carries.drop_last(), cat, month);
        assert((evs + carries).drop_last() =~= evs + carries.drop_last());
    }
}


pub open spec fn is_flow(c: BudgetCategory) -> bool {
    c.kind@ == "flow"@
}

/// What a flow category has left at the end of a month: all of the month's
/// events (carries included) plus the month's envelope activity.
pub open spec fn month_available(c: BudgetCategory, evs: Seq<AllocationEvent>, acts: Seq<SplitActivity>, month: Seq<char>) -> int {
    event_sum(evs, Some(c.category_id@), Some(month), None) + activity_sum(
        acts,
        "envelope"@,
        c.category_id@,
        Some(month),
        false,
    )
}

pub open spec fn month_available_fits(c: BudgetCategory, evs: Seq<AllocationEvent>, acts: Seq<SplitActivity>, month: Seq<char>) -> bool {
    &&& i64_fits(event_sum(evs, Some(c.category_id@), Some(month), None))
    &&& i64_fits(activity_sum(acts, "envelope"@, c.category_id@, Some(month), false))
    &&& i64_fits(month_available(c, evs, acts, month))
}

/// The debts that closing a month carries forward: for each flow category
/// (in order) whose available is negative, its id and that available.
pub open spec fn carry_plan(cats: Seq<BudgetCategory>, evs: Seq<AllocationEvent>, acts: Seq<SplitActivity>, month: Seq<char>) -> Seq<(Seq<char>, int)>
    decreases cats.len(),
{
    if cats.len() == 0 {
        Seq::empty()
    } else {
        let p = carry_plan(cats.drop_last(), evs, acts, month);
        let c = cats.last();
        if is_flow(c) && month_available(c, evs, acts, month) < 0 {
            p.push((c.category_id@, month_available(c, evs, acts, month)))
        } else {
            p
        }
    }
}

pub open spec fn close_figures_fit(cats: Seq<BudgetCategory>, evs: Seq<AllocationEvent>, acts: Seq<SplitActivity>, month: Seq<char>) -> bool {
    forall|k: int| 0 <= k < cats.len() && is_flow(#[trigger] cats[k]) ==> month_available_fits(cats[k], evs, acts, month)
}

/// A YYYY-MM month: seven bytes with a dash as the fifth character.
pub open spec fn month_format_ok(month: &str) -> bool {
    month.spec_bytes().len() == 7 && month@.len() > 4 && month@[4] == '-'
}

/// The carry events match the plan: same categories, same amounts, all in
/// the target month.
pub open spec fn carries_follow(carries: Seq<AllocationEvent>, plan: Seq<(Seq<char>, int)>, target: Seq<char>) -> bool {
    &&& carries.len() == plan.len()
    &&& forall|k: int|
        0 <= k < carries.len() ==> {
            &&& (#[trigger] carries[k]).category_id@ == plan[k].0
            &&& carries[k].amount_cents == plan[k].1
            &&& carries[k].month@ == target
            &&& carries[k].kind == AllocationKind::Carry
            &&& carries[k].counterpart_category_id is None
        }
}

/// Closing a month: refuses a month not written YYYY-MM and a month already
/// closed; otherwise yields the next month and the carry events to write into
/// it (each flow category's negative available, as debt). Sinking categories
/// and surpluses carry nothing.
pub fn close_month_plan(
    month: &str,
    already_closed: bool,
    cats: &Vec<BudgetCategory>,
    evs: &Vec<AllocationEvent>,
    acts: &Vec<SplitActivity>,
) -> (r: Result<(String, Vec<AllocationEvent>), String>)
    requires
        month_format_ok(month) ==> next_month_defined(month@),
    ensures
        !month_format_ok(month) ==> (r matches Err(e) && e@ == "invalid month format '"@ + month@
            + "'; expected YYYY-MM"@),
        month_format_ok(month) && already_closed ==> (r matches Err(e) && e@ == "month "@ + month@
            + " is already closed"@),
        month_format_ok(month) && !already_closed ==> match next_month_outcome(month@) {
            Err(m) => (r matches Err(e) && e@ == m),
            Ok(t) => if close_figures_fit(cats@, evs@, acts@, month@) {
                (r matches Ok((target, carries)) && target@ == t && carries_follow(
                    carries@,
                    carry_plan(cats@, evs@, acts@, month@),
                    t,
                ))
            } else {
                (r matches Err(e) && e@ == "integer overflow"@)
            },
        },
{
    let chars = chars_of(month);
    let bytes = month.as_bytes();
    if bytes.len() != 7 || chars.len() <= 4 || chars[4] != '-' {
        let a = concat_str("invalid month format '", month);
        return Err(concat_str(a.as_str(), "'; expected YYYY-MM"));
    }
    if already_closed {
        let a = concat_str("month ", month);
        return Err(concat_str(a.as_str(), " is already closed"));
    }
    let target = match next_month(month) {
        Ok(t) => t,
        Err(e) => return Err(e),
    };
    let mut carries: Vec<AllocationEvent> = Vec::new();
    let n = cats.len();
    for i in 0..n
        invariant
            n == cats@.len(),
            month_format_ok(month),
            !already_closed,
            next_month_outcome(month@) == Ok::<Seq<char>, Seq<char>>(target@),
            close_figures_fit(cats@.take(i as int), evs@, acts@, month@),
            carries_follow(carries@, carry_plan(cats@.take(i as int), evs@, acts@, month@), target@),
    {
        proof {
            assert(cats@.take(i + 1).drop_last() =~= cats@.take(i as int));
            assert(cats@.take(i + 1).last() == cats@[i as int]);
        }
        let c = &cats[i];
        let flow = str_eq(c.kind.as_str(), "flow");
        if flow {
            let allocated = sum_events(evs, Some(c.category_id.as_str()), Some(month), None);
            let activity = sum_activity(acts, "envelope", c.category_id.as_str(), Some(month), false);
            match (allocated, activity) {
                (Some(a), Some(b)) => {
                    let avail: i128 = a as i128 + b as i128;
                    if avail < -0x8000_0000_0000_0000 || avail > 0x7fff_ffff_ffff_ffff {
                        proof {
                            assert(!month_available_fits(cats@[i as int], evs@, acts@, month@));
                            lemma_close_fit_extends(cats@, evs@, acts@, month@, i as int);
                        }
                        return Err(overflow_error());
                    }
                    if avail < 0 {
                        carries.push(
                            AllocationEvent {
                                category_id: c.category_id.clone(),
                                month: target.clone(),
                                amount_cents: avail as i64,
                                kind: AllocationKind::Carry,
                                counterpart_category_id: None,
                            },
                        );
                    }
                },
                _ => {
                    proof {
                        assert(!month_available_fits(cats@[i as int], evs@, acts@, month@));
                        lemma_close_fit_extends(cats@, evs@, acts@, month@, i as int);
                    }
                    return Err(overflow_error());
                },
            }
        }
        proof {
            assert forall|k: int|
                0 <= k < cats@.take(i + 1).len() && is_flow(#[trigger] cats@.take(i + 1)[k])
                implies month_available_fits(cats@.take(i + 1)[k], evs@, acts@, month@) by {
                if k < i {
                    assert(cats@.take(i + 1)[k] == cats@.take(i as int)[k]);
                }
            }
        }
    }
    assert(cats@.take(n as int) =~= cats@);
    Ok((target, carries))
}

proof fn lemma_close_fit_extends(cats: Seq<BudgetCategory>, evs: Seq<AllocationEvent>, acts: Seq<SplitActivity>, month: Seq<char>, i: int)
    requires
        0 <= i < cats.len(),
        is_flow(cats[i]),
        !month_available_fits(cats[i], evs, acts, month),
    ensures
        !close_figures_fit(cats, evs, acts, month),
{
}

/// After a close writes its carries, the next month shows each carry as the
/// category's carried-in debt.
pub proof fn carry_becomes_carried_in(
    evs: Seq<AllocationEvent>,
    carry: AllocationEvent,
    target: Seq<char>,
)
    requires
        carry.kind == AllocationKind::Carry,
        carry.month@ == target,
    ensures
        event_sum(evs.push(carry), Some(carry.category_id@), Some(target), Some(true))
            == event_sum(evs, Some(carry.category_id@), Some(target), Some(true)) + carry.amount_cents,
{
    lemma_event_sum_push(evs, carry, Some(carry.category_id@), Some(target), Some(true));
}

/// Only debt is carried: every planned carry is negative.
pub proof fn carries_are_debts(cats: Seq<BudgetCategory>, evs: Seq<AllocationEvent>, acts: Seq<SplitActivity>, month: Seq<char>)
    ensures
        forall|k: int| 0 <= k < carry_plan(cats, evs, acts, month).len() ==> (#[trigger] carry_plan(cats, evs, acts, month)[k]).1 < 0,
    decreases cats.len(),
{
    if cats.len() > 0 {
        carries_are_debts(cats.drop_last(), evs, acts, month);
        let p = carry_plan(cats.drop_last(), evs, acts, month);
        let q = carry_plan(cats, evs, acts, month);
        assert forall|k: int| 0 <= k < q.len() implies (#[trigger] q[k]).1 < 0 by {
            if k < p.len() {
                assert(q[k] == p[k]);
            }
        }
    }
}


#[derive(Debug)]
pub struct HomeView {
    pub month: String,
    /// sum of max(0, available) across flow categories; available = allocated + activity + carried_in
    pub flow_remaining_cents: i64,
    /// calendar days left in month counting today; 0 on the last day after it passes
    pub days_remaining: i64,
    /// flow_remaining / days_remaining (integer division); 0 when days_remaining is 0
    pub safe_to_spend_daily_cents: i64,
}

/// A flow category's available for the home screen: the month's user-driven
/// allocations, its envelope activity, and the debt carried in.
pub open spec fn home_available(c: BudgetCategory, evs: Seq<AllocationEvent>, acts: Seq<SplitActivity>, month: Seq<char>) -> int {
    event_sum(evs, Some(c.category_id@), Some(month), Some(false)) + activity_sum(
        acts,
        "envelope"@,
        c.category_id@,
        Some(month),
        false,
    ) + event_sum(evs, Some(c.category_id@), Some(month), Some(true))
}

pub open spec fn home_available_fits(c: BudgetCategory, evs: Seq<AllocationEvent>, acts: Seq<SplitActivity>, month: Seq<char>) -> bool {
    &&& i64_fits(event_sum(evs, Some(c.category_id@), Some(month), Some(false)))
    &&& i64_fits(activity_sum(acts, "envelope"@, c.category_id@, Some(month), false))
    &&& i64_fits(event_sum(evs, Some(c.category_id@), Some(month), Some(true)))
    &&& i64_fits(home_available(c, evs, acts, month))
}

/// What is left to spend this month: the positive availables of the flow
/// categories, added up (overspent categories count as zero).
pub open spec fn flow_remaining(cats: Seq<BudgetCategory>, evs: Seq<AllocationEvent>, acts: Seq<SplitActivity>, month: Seq<char>) -> int
    decreases cats.len(),
{
    if cats.len() == 0 {
        0
    } else {
        let c = cats.last();
        let a = home_available(c, evs, acts, month);
        flow_remaining(cats.drop_last(), evs, acts, month) + if is_flow(c) && a > 0 {
            a
        } else {
            0
        }
    }
}

pub open spec fn home_figures_fit(cats: Seq<BudgetCategory>, evs: Seq<AllocationEvent>, acts: Seq<SplitActivity>, month: Seq<char>) -> bool {
    &&& forall|k: int| 0 <= k < cats.len() && is_flow(#[trigger] cats[k]) ==> home_available_fits(cats[k], evs, acts, month)
    &&& i64_fits(flow_remaining(cats, evs, acts, month))
}

proof fn lemma_flow_remaining_grows(cats: Seq<BudgetCategory>, evs: Seq<AllocationEvent>, acts: Seq<SplitActivity>, month: Seq<char>, i: int)
    requires
        0 <= i <= cats.len(),
    ensures
        0 <= flow_remaining(cats.take(i), evs, acts, month) <= flow_remaining(cats, evs, acts, month),
    decreases cats.len() - i,
{
    if i < cats.len() {
        lemma_flow_remaining_grows(cats, evs, acts, month, i + 1);
        assert(cats.take(i + 1).drop_last() =~= cats.take(i));
        lemma_flow_remaining_nonneg(cats.take(i), evs, acts, month);
        let c = cats.take(i + 1).last();
        let a = home_available(c, evs, acts, month);
        assert(flow_remaining(cats.take(i + 1), evs, acts, month) == flow_remaining(cats.take(i), evs, acts, month) + if is_flow(c) && a > 0 { a } else { 0 });
    } else {
        assert(cats.take(i) =~= cats);
        lemma_flow_remaining_nonneg(cats, evs, acts, month);
    }
}

proof fn lemma_flow_remaining_nonneg(cats: Seq<BudgetCategory>, evs: Seq<AllocationEvent>, acts: Seq<SplitActivity>, month: Seq<char>)
    ensures
        0 <= flow_remaining(cats, evs, acts, month),
    decreases cats.len(),
{
    if cats.len() > 0 {
        lemma_flow_remaining_nonneg(cats.drop_last(), evs, acts, month);
    }
}

/// The positive availables of the flow categories, added up, or "integer
/// overflow".
pub fn flow_remaining_cents(cats: &Vec<BudgetCategory>, evs: &Vec<AllocationEvent>, acts: &Vec<SplitActivity>, month: &str) -> (r: Result<i64, String>)
    ensures
        match r {
            Ok(v) => home_figures_fit(cats@, evs@, acts@, month@) && v == flow_remaining(cats@, evs@, acts@, month@),
            Err(e) => !home_figures_fit(cats@, evs@, acts@, month@) && e@ == "integer overflow"@,
        },
{
    let mut total: i128 = 0;
    let n = cats.len();
    for i in 0..n
        invariant
            n == cats@.len(),
            forall|k: int| 0 <= k < i && is_flow(#[trigger] cats@[k]) ==> home_available_fits(cats@[k], evs@, acts@, month@),
            total == flow_remaining(cats@.take(i as int), evs@, acts@, month@),
            0 <= total <= 0x7fff_ffff_ffff_ffff,
    {
        proof {
            assert(cats@.take(i + 1).drop_last() =~= cats@.take(i as int));
            assert(cats@.take(i + 1).last() == cats@[i as int]);
        }
        let c = &cats[i];
        if str_eq(c.kind.as_str(), "flow") {
            let a = sum_events(evs, Some(c.category_id.as_str()), Some(month), Some(false));
            let b = sum_activity(acts, "envelope", c.category_id.as_str(), Some(month), false);
            let k = sum_events(evs, Some(c.category_id.as_str()), Some(month), Some(true));
            match (a, b, k) {
                (Some(a), Some(b), Some(k)) => {
                    let avail: i128 = a as i128 + b as i128 + k as i128;
                    if avail < -0x8000_0000_0000_0000 || avail > 0x7fff_ffff_ffff_ffff {
                        assert(!home_available_fits(cats@[i as int], evs@, acts@, month@));
                        return Err(overflow_error());
                    }
                    if avail > 0 {
                        total = total + avail;
                    }
                },
                _ => {
                    assert(!home_available_fits(cats@[i as int], evs@, acts@, month@));
                    return Err(overflow_error());
                },
            }
        }
        if total > 0x7fff_ffff_ffff_ffff {
            proof {
                lemma_flow_remaining_grows(cats@, evs@, acts@, month@, i + 1);
            }
            return Err(overflow_error());
        }
    }
    assert(cats@.take(n as int) =~= cats@);
    Ok(total as i64)
}

/// The month (YYYY-MM) that a date's first seven bytes name.
pub open spec fn home_month(today: &str) -> Seq<char> {
    decode_utf8(today.spec_bytes().subrange(0, 7))
}

/// The home screen for a day: what flow money is left this month, how many
/// days remain (counting today), and what can be spent per day.
pub fn home_view(today: &str, cats: &Vec<BudgetCategory>, evs: &Vec<AllocationEvent>, acts: &Vec<SplitActivity>) -> (r: Result<HomeView, String>)
    requires
        today.spec_bytes().len() >= 7 ==> is_char_boundary(today.spec_bytes(), 7),
    ensures
        today.spec_bytes().len() < 7 ==> (r matches Err(e) && e@ == "invalid date '"@ + today@ + "'"@),
        today.spec_bytes().len() >= 7 ==> {
            let m = home_month(today);
            if !home_figures_fit(cats@, evs@, acts@, m) {
                r matches Err(e) && e@ == "integer overflow"@
            } else {
                match days_remaining_outcome(today@) {
                    Err(msg) => (r matches Err(e) && e@ == msg),
                    Ok(d) => (r matches Ok(v) && {
                        let f = flow_remaining(cats@, evs@, acts@, m);
                        &&& v.month@ == m
                        &&& v.flow_remaining_cents == f
                        &&& v.days_remaining == d
                        &&& v.safe_to_spend_daily_cents == if d > 0 {
                            f / d
                        } else {
                            0
                        }
                    }),
                }
            }
        },
{
    let bytes = today.as_bytes();
    if bytes.len() < 7 {
        let a = concat_str("invalid date '", today);
        return Err(concat_str(a.as_str(), "'"));
    }
    let (month, _) = today.split_at(7);
    proof {
        vstd::utf8::encode_utf8_decode_utf8(month@);
    }
    assert(month@ == home_month(today));
    let flow = flow_remaining_cents(cats, evs, acts, month)?;
    proof {
        lemma_flow_remaining_nonneg(cats@, evs@, acts@, month@);
    }
    let days = days_remaining_in_month(today)?;
    let safe = if days > 0 {
        flow / days
    } else {
        0
    };
    Ok(HomeView {
        month: String::from_str(month),
        flow_remaining_cents: flow,
        days_remaining: days,
        safe_to_spend_daily_cents: safe,
    })
}

proof fn lemma_activity_push(
    acts: Seq<SplitActivity>,
    a: SplitActivity,
    target_type: Seq<char>,
    target_id: Seq<char>,
    month: Option<Seq<char>>,
    outflow_only: bool,
)
    ensures
        activity_sum(acts.push(a), target_type, target_id, month, outflow_only) == activity_sum(
            acts,
            target_type,
            target_id,
            month,
            outflow_only,
        ) + if activity_selected(a, target_type, target_id, month, outflow_only) {
            a.amount_cents as int
        } else {
            0
        },
{
    assert(acts.push(a).drop_last() =~= acts);
    assert(acts.push(a).last() == a);
}

proof fn lemma_event_push(
    evs: Seq<AllocationEvent>,
    e: AllocationEvent,
    cat: Option<Seq<char>>,
    month: Option<Seq<char>>,
    carry: Option<bool>,
)
    ensures
        event_sum(evs.push(e), cat, month, carry) == event_sum(evs, cat, month, carry) + if event_selected(
            e,
            cat,
            month,
            carry,
        ) {
            e.amount_cents as int
        } else {
            0
        },
{
    assert(evs.push(e).drop_last() =~= evs);
    assert(evs.push(e).last() == e);
}

/// A sinking category shows its spending of all time: its spent figure is
/// the same whichever month is asked for, and every envelope outflow split
/// on it, whatever its date, adds its amount to that figure. A flow
/// category's spent figure counts only the outflows dated in the month: a
/// split dated in another month leaves it unchanged, one dated in the
/// month adds its amount. Income splits, inflows and other categories'
/// splits never count.
pub proof fn sinking_spending_is_all_time(
    c: BudgetCategory,
    evs: Seq<AllocationEvent>,
    acts: Seq<SplitActivity>,
    a: SplitActivity,
    month: Seq<char>,
    other_month: Seq<char>,
)
    ensures
        c.kind@ == "sinking"@ ==> category_figures(c, evs, acts, month).1 == category_figures(
            c,
            evs,
            acts,
            other_month,
        ).1,
        c.kind@ == "sinking"@ ==> category_figures(c, evs, acts, month).0 == category_figures(
            c,
            evs,
            acts,
            other_month,
        ).0,
        (c.kind@ == "sinking"@ && a.target_type@ == "envelope"@ && a.target_id@ == c.category_id@
            && a.amount_cents < 0) ==> category_figures(c, evs, acts.push(a), month).1 == category_figures(
            c,
            evs,
            acts,
            month,
        ).1 - a.amount_cents,
        (c.kind@ != "sinking"@ && a.target_type@ == "envelope"@ && a.target_id@ == c.category_id@
            && a.amount_cents < 0 && in_month(a.date@, month)) ==> category_figures(
            c,
            evs,
            acts.push(a),
            month,
        ).1 == category_figures(c, evs, acts, month).1 - a.amount_cents,
        (c.kind@ != "sinking"@ && !in_month(a.date@, month)) ==> category_figures(
            c,
            evs,
            acts.push(a),
            month,
        ).1 == category_figures(c, evs, acts, month).1,
        (a.target_type@ != "envelope"@ || a.target_id@ != c.category_id@ || a.amount_cents >= 0)
            ==> category_figures(c, evs, acts.push(a), month).1 == category_figures(c, evs, acts, month).1,
{
    let scope = if is_sinking(c.kind@) { None } else { Some(month) };
    lemma_activity_push(acts, a, "envelope"@, c.category_id@, scope, true);
}

/// What the home view counts as a flow category's available in a month:
/// every allocation event of the category for that month adds its amount,
/// whatever its kind (user allocation, reallocation or carried-in debt
/// from a month close), and every envelope split of the category dated in
/// the month adds its amount; events of other categories or months and
/// splits dated elsewhere change nothing. Alone on the home view, the
/// category leaves its available to spend, or nothing when overspent.
pub proof fn carried_debt_lowers_available(
    c: BudgetCategory,
    evs: Seq<AllocationEvent>,
    acts: Seq<SplitActivity>,
    e: AllocationEvent,
    a: SplitActivity,
    month: Seq<char>,
)
    ensures
        (e.category_id@ == c.category_id@ && e.month@ == month) ==> home_available(c, evs.push(e), acts, month)
            == home_available(c, evs, acts, month) + e.amount_cents,
        (e.category_id@ != c.category_id@ || e.month@ != month) ==> home_available(c, evs.push(e), acts, month)
            == home_available(c, evs, acts, month),
        (a.target_type@ == "envelope"@ && a.target_id@ == c.category_id@ && in_month(a.date@, month))
            ==> home_available(c, evs, acts.push(a), month) == home_available(c, evs, acts, month)
            + a.amount_cents,
        !(a.target_type@ == "envelope"@ && a.target_id@ == c.category_id@ && in_month(a.date@, month))
            ==> home_available(c, evs, acts.push(a), month) == home_available(c, evs, acts, month),
        c.kind@ == "flow"@ ==> flow_remaining(seq![c], evs, acts, month) == if home_available(
            c,
            evs,
            acts,
            month,
        ) > 0 {
            home_available(c, evs, acts, month)
        } else {
            0
        },
{
    lemma_event_push(evs, e, Some(c.category_id@), Some(month), Some(false));
    lemma_event_push(evs, e, Some(c.category_id@), Some(month), Some(true));
    lemma_activity_push(acts, a, "envelope"@, c.category_id@, Some(month), false);
    let one = seq![c];
    let none = Seq::<BudgetCategory>::empty();
    assert(one.drop_last() =~= none);
    assert(one.last() == c);
    assert(flow_remaining(none, evs, acts, month) == 0);
    assert(one.len() == 1);
    assert(flow_remaining(one, evs, acts, month) == flow_remaining(one.drop_last(), evs, acts, month) + if is_flow(
        c,
    ) && home_available(c, evs, acts, month) > 0 {
        home_available(c, evs, acts, month)
    } else {
        0
    });
}

} // verus!
