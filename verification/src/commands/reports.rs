//! Spending reports: by category for a month, and month by month.

use vstd::prelude::*;
use crate::commands::budget::{
    activity_sum, lemma_outflow_sum_nonpositive, sum_activity, BudgetCategory,
    SplitActivity,
};
use crate::text::{padded_int_chars, padded_int_text, str_eq, string_from_chars};

verus! {

#[derive(Debug)]
pub struct CategorySpendReport {
    pub category_id: String,
    pub category_name: String,
    /// "flow" | "sinking"
    pub kind: String,
    /// positive cents: abs value of envelope spending splits for the month
    pub spent_cents: i64,
}

#[derive(Debug)]
pub struct MonthlySpendTrend {
    /// YYYY-MM
    pub month: String,
    /// positive cents: total envelope spending for the month
    pub total_spent_cents: i64,
}

/// `YYYY-MM` of a year and a month, as `{year:04}-{month:02}` writes it.
pub open spec fn month_label(year: int, month: int) -> Seq<char> {
    padded_int_text(year, 4) + seq!['-'] + padded_int_text(month, 2)
}

/// The year and month `k` months before `year`-`month`.
pub open spec fn months_back(year: int, month: int, k: int) -> (int, int) {
    let idx = year * 12 + (month - 1) - k;
    (idx / 12, idx % 12 + 1)
}

/// The labels of the `n` months ending with `year`-`month`, newest first.
pub open spec fn trend_labels(year: int, month: int, n: int) -> Seq<Seq<char>> {
    Seq::new(
        if n > 0 { n as nat } else { 0 },
        |k: int| month_label(months_back(year, month, k).0, months_back(year, month, k).1),
    )
}

proof fn lemma_month_step(year: int, month: int, k: int)
    requires
        1 <= month <= 12,
    ensures
        months_back(year, month, k).1 == 1 ==> months_back(year, month, k + 1) == (
            months_back(year, month, k).0 - 1,
            12int,
        ),
        months_back(year, month, k).1 != 1 ==> months_back(year, month, k + 1) == (
            months_back(year, month, k).0,
            months_back(year, month, k).1 - 1,
        ),
        1 <= months_back(year, month, k).1 <= 12,
{
    let idx = year * 12 + (month - 1) - k;
    let q = idx / 12;
    let r = idx % 12;
    vstd::arithmetic::div_mod::lemma_fundamental_div_mod(idx, 12);
    if r == 0 {
        vstd::arithmetic::div_mod::lemma_fundamental_div_mod_converse(idx - 1, 12, q - 1, 11);
    } else {
        vstd::arithmetic::div_mod::lemma_fundamental_div_mod_converse(idx - 1, 12, q, r - 1);
    }
}

proof fn lemma_year_monotone(year: int, month: int, j: int, k: int)
    requires
        j <= k,
    ensures
        months_back(year, month, k).0 <= months_back(year, month, j).0,
{
    vstd::arithmetic::div_mod::lemma_div_is_ordered(
        year * 12 + (month - 1) - k,
        year * 12 + (month - 1) - j,
        12,
    );
}

/// The months of a trend, newest first: `months` labels going back from
/// `year`-`month` (the current month).
pub fn trend_months(year: i32, month: u32, months: u32) -> (r: Vec<String>)
    requires
        1 <= month <= 12,
        months_back(year as int, month as int, months as int).0 >= i32::MIN,
    ensures
        r@.map_values(|s: String| s@) == trend_labels(year as int, month as int, months as int),
{
    let mut out: Vec<String> = Vec::new();
    let mut y: i32 = year;
    let mut m: u32 = month;
    let mut k: u32 = 0;
    proof {
        vstd::arithmetic::div_mod::lemma_fundamental_div_mod_converse(
            year * 12 + (month - 1),
            12,
            year as int,
            month - 1,
        );
    }
    while k < months
        invariant
            1 <= month <= 12,
            months_back(year as int, month as int, months as int).0 >= i32::MIN,
            k <= months,
            y as int == months_back(year as int, month as int, k as int).0,
            m as int == months_back(year as int, month as int, k as int).1,
            out@.map_values(|s: String| s@) == trend_labels(year as int, month as int, k as int),
        decreases months - k,
    {
        proof {
            lemma_month_step(year as int, month as int, k as int);
            lemma_year_monotone(year as int, month as int, k + 1, months as int);
        }
        let yc = padded_int_chars(y as i64, 4);
        let mc = padded_int_chars(m as i64, 2);
        let mut label: Vec<char> = Vec::new();
        for i in 0..yc.len()
            invariant
                label@ == yc@.take(i as int),
        {
            label.push(yc[i]);
            assert(label@ =~= yc@.take(i + 1));
        }
        assert(yc@.take(yc@.len() as int) =~= yc@);
        label.push('-');
        let ghost mid = label@;
        for i in 0..mc.len()
            invariant
                label@ == mid + mc@.take(i as int),
        {
            label.push(mc[i]);
            assert(label@ =~= mid + mc@.take(i + 1));
        }
        assert(mc@.take(mc@.len() as int) =~= mc@);
        assert(label@ =~= month_label(y as int, m as int));
        let ghost before = out@.map_values(|s: String| s@);
        out.push(string_from_chars(label.as_slice()));
        assert(out@.map_values(|s: String| s@) =~= before.push(month_label(y as int, m as int)));
        assert(out@.map_values(|s: String| s@) =~= trend_labels(year as int, month as int, k + 1));
        if m == 1 {
            m = 12;
            y = y - 1;
        } else {
            m = m - 1;
        }
        k = k + 1;
    }
    out
}

/// The spending recorded for a month: the last entry for it, or 0.
pub open spec fn spent_in(spend: Seq<(Seq<char>, i64)>, month: Seq<char>) -> i64
    decreases spend.len(),
{
    if spend.len() == 0 {
        0
    } else if spend.last().0 == month {
        spend.last().1
    } else {
        spent_in(spend.drop_last(), month)
    }
}

pub open spec fn spend_view(spend: Seq<(String, i64)>) -> Seq<(Seq<char>, i64)> {
    spend.map_values(|p: (String, i64)| (p.0@, p.1))
}

fn spent_for(spend: &Vec<(String, i64)>, month: &str) -> (r: i64)
    ensures
        r == spent_in(spend_view(spend@), month@),
{
    let ghost sv = spend_view(spend@);
    let mut i = spend.len();
    assert(sv.take(i as int) =~= sv);
    while i > 0
        invariant
            i <= spend@.len(),
            sv == spend_view(spend@),
            spent_in(sv, month@) == spent_in(sv.take(i as int), month@),
        decreases i,
    {
        assert(sv.take(i as int).drop_last() =~= sv.take(i - 1));
        if str_eq(spend[i - 1].0.as_str(), month) {
            return spend[i - 1].1;
        }
        i = i - 1;
    }
    0
}

/// The trend rows: each month in order, with the spending recorded for it
/// (0 for a month without any).
pub fn monthly_trend(months: Vec<String>, spend: &Vec<(String, i64)>) -> (r: Vec<MonthlySpendTrend>)
    ensures
        r@.len() == months@.len(),
        forall|k: int|
            0 <= k < r@.len() ==> (#[trigger] r@[k]).month@ == months@[k]@ && r@[k].total_spent_cents
                == spent_in(spend_view(spend@), months@[k]@),
{
    let ghost ms = months@;
    let mut out: Vec<MonthlySpendTrend> = Vec::new();
    let mut rest = months;
    let n = rest.len();
    let mut i: usize = 0;
    while i < n
        invariant
            n == ms.len(),
            i <= n,
            rest@ == ms.subrange(i as int, n as int),
            out@.len() == i,
            forall|k: int|
                0 <= k < i ==> (#[trigger] out@[k]).month@ == ms[k]@ && out@[k].total_spent_cents
                    == spent_in(spend_view(spend@), ms[k]@),
        decreases n - i,
    {
        let m = rest.remove(0);
        assert(m == ms[i as int]);
        assert(rest@ == ms.subrange(i + 1, n as int));
        let total = spent_for(spend, m.as_str());
        out.push(MonthlySpendTrend { month: m, total_spent_cents: total });
        i = i + 1;
    }
    out
}

pub open spec fn i64_max() -> int {
    0x7fff_ffff_ffff_ffff
}

/// What a category spent in a month: its envelope outflows dated in the
/// month, as a positive number of cents.
pub open spec fn category_spent(acts: Seq<SplitActivity>, category_id: Seq<char>, month: Seq<char>) -> int {
    -activity_sum(acts, "envelope"@, category_id, Some(month), true)
}

pub type SpendRow = (Seq<char>, Seq<char>, Seq<char>, int);

/// The spend report rows, in category order: one for each category that
/// spent anything in the month.
pub open spec fn spend_rows(cats: Seq<BudgetCategory>, acts: Seq<SplitActivity>, month: Seq<char>) -> Seq<SpendRow>
    decreases cats.len(),
{
    if cats.len() == 0 {
        Seq::empty()
    } else {
        let c = cats.last();
        let spent = category_spent(acts, c.category_id@, month);
        spend_rows(cats.drop_last(), acts, month) + if spent > 0 {
            seq![(c.category_id@, c.category_name@, c.kind@, spent)]
        } else {
            Seq::<SpendRow>::empty()
        }
    }
}

/// Every category's spending in the month can be taken in `i64`.
pub open spec fn spends_fit(cats: Seq<BudgetCategory>, acts: Seq<SplitActivity>, month: Seq<char>) -> bool {
    forall|k: int| 0 <= k < cats.len() ==> category_spent(acts, (#[trigger] cats[k]).category_id@, month) <= i64_max()
}

pub open spec fn report_row(r: CategorySpendReport) -> SpendRow {
    (r.category_id@, r.category_name@, r.kind@, r.spent_cents as int)
}

pub open spec fn report_rows(v: Seq<CategorySpendReport>) -> Seq<SpendRow> {
    v.map_values(|r: CategorySpendReport| report_row(r))
}

/// Largest spending first.
pub open spec fn by_spend_desc(v: Seq<CategorySpendReport>) -> bool {
    forall|i: int, j: int| 0 <= i < j < v.len() ==> v[i].spent_cents >= v[j].spent_cents
}

/// The spending report of a month: each category that spent anything
/// (its envelope outflows dated in the month), largest spending first;
/// "integer overflow" when a category's spending leaves the `i64` range.
/// Categories with equal spending keep their order in `cats`.
pub fn category_spend(month: &str, cats: &Vec<BudgetCategory>, acts: &Vec<SplitActivity>) -> (r: Result<Vec<CategorySpendReport>, String>)
    ensures
        match r {
            Ok(v) => spends_fit(cats@, acts@, month@) && by_spend_desc(v@) && report_rows(v@).to_multiset()
                == spend_rows(cats@, acts@, month@).to_multiset(),
            Err(e) => !spends_fit(cats@, acts@, month@) && e@ == "integer overflow"@,
        },
{
    let mut out: Vec<CategorySpendReport> = Vec::new();
    let n = cats.len();
    assert(report_rows(out@) =~= Seq::<SpendRow>::empty());
    assert(spend_rows(cats@.take(0), acts@, month@) =~= Seq::<SpendRow>::empty());
    for i in 0..n
        invariant
            n == cats@.len(),
            spends_fit(cats@.take(i as int), acts@, month@),
            by_spend_desc(out@),
            report_rows(out@).to_multiset() == spend_rows(cats@.take(i as int), acts@, month@).to_multiset(),
    {
        let c = &cats[i];
        proof {
            lemma_outflow_sum_nonpositive(acts@, "envelope"@, c.category_id@, Some(month@));
            assert(cats@.take(i + 1).drop_last() =~= cats@.take(i as int));
            assert(cats@.take(i + 1).last() == cats@[i as int]);
        }
        let sum = match sum_activity(acts, "envelope", c.category_id.as_str(), Some(month), true) {
            Some(v) => v,
            None => {
                assert(!spends_fit(cats@, acts@, month@)) by {
                    assert(cats@[i as int] == *c);
                }
                return Err(String::from_str("integer overflow"));
            },
        };
        if sum == i64::MIN {
            assert(!spends_fit(cats@, acts@, month@)) by {
                assert(cats@[i as int] == *c);
            }
            return Err(String::from_str("integer overflow"));
        }
        let spent: i64 = -sum;
        assert forall|k: int| 0 <= k < i + 1 implies category_spent(
            acts@,
            (#[trigger] cats@.take(i + 1)[k]).category_id@,
            month@,
        ) <= i64_max() by {
            if k < i {
                assert(cats@.take(i + 1)[k] == cats@.take(i as int)[k]);
            }
        }
        let ghost before = report_rows(out@);
        let ghost rows_i = spend_rows(cats@.take(i as int), acts@, month@);
        if spent > 0 {
            let rep = CategorySpendReport {
                category_id: c.category_id.clone(),
                category_name: c.category_name.clone(),
                kind: c.kind.clone(),
                spent_cents: spent,
            };
            let mut j: usize = 0;
            while j < out.len() && out[j].spent_cents >= spent
                invariant
                    j <= out@.len(),
                    forall|k: int| 0 <= k < j ==> (#[trigger] out@[k]).spent_cents >= spent,
                decreases out@.len() - j,
            {
                j = j + 1;
            }
            let ghost old_out = out@;
            out.insert(j, rep);
            proof {
                assert forall|a: int, b: int| 0 <= a < b < out@.len() implies out@[a].spent_cents
                    >= out@[b].spent_cents by {
                    if b < j {
                        assert(out@[a] == old_out[a] && out@[b] == old_out[b]);
                    } else if b == j {
                        assert(out@[a] == old_out[a]);
                    } else if a < j {
                        assert(out@[a] == old_out[a] && out@[b] == old_out[b - 1]);
                        assert(old_out[j as int].spent_cents < spent);
                        if b - 1 > j {
                            assert(old_out[j as int].spent_cents >= old_out[b - 1].spent_cents);
                        }
                    } else if a == j {
                        assert(out@[b] == old_out[b - 1]);
                        assert(old_out[j as int].spent_cents < spent);
                        if b - 1 > j {
                            assert(old_out[j as int].spent_cents >= old_out[b - 1].spent_cents);
                        }
                    } else {
                        assert(out@[a] == old_out[a - 1] && out@[b] == old_out[b - 1]);
                    }
                }
                assert(report_rows(out@) =~= before.insert(j as int, report_row(rep)));
                vstd::seq_lib::to_multiset_insert(before, j as int, report_row(rep));
                assert(spend_rows(cats@.take(i + 1), acts@, month@) =~= rows_i.push(report_row(rep)));
                vstd::seq_lib::to_multiset_build(rows_i, report_row(rep));
            }
        } else {
            assert(spend_rows(cats@.take(i + 1), acts@, month@) =~= rows_i);
        }
    }
    assert(cats@.take(n as int) =~= cats@);
    Ok(out)
}

/// A split as the spending trend reads it: its target type, its amount and
/// the calendar month of its transaction's date, as SQLite's
/// `strftime('%Y-%m', date)` gives it when the ledger reads the row (`None`
/// where SQLite cannot read the date; a day past the end of its month
/// rolls into the next month).
#[derive(Debug)]
pub struct MonthSplit {
    pub target_type: String,
    pub amount_cents: i64,
    pub month: Option<String>,
}

/// The split counts toward a month: an envelope outflow whose date falls
/// in that month.
pub open spec fn month_selected(a: MonthSplit, month: Seq<char>) -> bool {
    &&& a.target_type@ == "envelope"@
    &&& a.amount_cents < 0
    &&& a.month matches Some(m) && m@ == month
}

/// The envelope outflows of a month, added up (a sum of negatives).
pub open spec fn month_outflow(splits: Seq<MonthSplit>, month: Seq<char>) -> int
    decreases splits.len(),
{
    if splits.len() == 0 {
        0
    } else {
        month_outflow(splits.drop_last(), month) + if month_selected(splits.last(), month) {
            splits.last().amount_cents as int
        } else {
            0
        }
    }
}

proof fn lemma_month_outflow_step(splits: Seq<MonthSplit>, month: Seq<char>, i: int)
    requires
        0 <= i < splits.len(),
    ensures
        month_outflow(splits.take(i + 1), month) == month_outflow(splits.take(i), month) + if month_selected(
            splits[i],
            month,
        ) {
            splits[i].amount_cents as int
        } else {
            0
        },
{
    assert(splits.take(i + 1).drop_last() =~= splits.take(i));
}

/// What was spent in a month, as a positive number of cents, or `None`
/// when it leaves the `i64` range.
fn month_spend(splits: &Vec<MonthSplit>, month: &str) -> (r: Option<i64>)
    ensures
        match r {
            Some(v) => v == -month_outflow(splits@, month@),
            None => -month_outflow(splits@, month@) > i64_max(),
        },
{
    let mut acc: i128 = 0;
    let n = splits.len();
    assert(splits@.take(0) =~= Seq::<MonthSplit>::empty());
    for i in 0..n
        invariant
            n == splits@.len(),
            acc == month_outflow(splits@.take(i as int), month@),
            -(i as int) * 0x8000_0000_0000_0000 <= acc <= 0,
    {
        proof {
            lemma_month_outflow_step(splits@, month@, i as int);
            reveal_strlit("envelope");
        }
        let a = &splits[i];
        let selected = match &a.month {
            Some(m) => str_eq(a.target_type.as_str(), "envelope") && a.amount_cents < 0 && str_eq(
                m.as_str(),
                month,
            ),
            None => false,
        };
        if selected {
            acc = acc + a.amount_cents as i128;
        }
    }
    assert(splits@.take(n as int) =~= splits@);
    if acc < -0x7fff_ffff_ffff_ffff {
        None
    } else {
        Some((-acc) as i64)
    }
}

/// Every month's spending can be taken in `i64`.
pub open spec fn month_spends_fit(months: Seq<String>, splits: Seq<MonthSplit>) -> bool {
    forall|k: int| 0 <= k < months.len() ==> -month_outflow(splits, (#[trigger] months[k])@) <= i64_max()
}

/// The spending of each month (its envelope outflows, as a positive number
/// of cents), in the order of `months`; "integer overflow" when a month's
/// spending leaves the `i64` range.
pub fn month_spend_totals(months: &Vec<String>, splits: &Vec<MonthSplit>) -> (r: Result<Vec<(String, i64)>, String>)
    ensures
        match r {
            Ok(v) => month_spends_fit(months@, splits@) && v@.len() == months@.len() && forall|k: int|
                0 <= k < v@.len() ==> (#[trigger] v@[k]).0@ == months@[k]@ && v@[k].1 == -month_outflow(
                    splits@,
                    months@[k]@,
                ),
            Err(e) => !month_spends_fit(months@, splits@) && e@ == "integer overflow"@,
        },
{
    let mut out: Vec<(String, i64)> = Vec::new();
    let n = months.len();
    let mut i: usize = 0;
    while i < n
        invariant
            n == months@.len(),
            i <= n,
            out@.len() == i,
            forall|k: int|
                0 <= k < i ==> (#[trigger] out@[k]).0@ == months@[k]@ && out@[k].1 == -month_outflow(
                    splits@,
                    months@[k]@,
                ) && -month_outflow(splits@, months@[k]@) <= i64_max(),
        decreases n - i,
    {
        let r = month_spend(splits, months[i].as_str());
        let v = match r {
            Some(v) => v,
            None => {
                assert(!month_spends_fit(months@, splits@));
                return Err(String::from_str("integer overflow"));
            },
        };
        let m = months[i].clone();
        let ghost before = out@;
        out.push((m, v));
        assert forall|k: int| 0 <= k < i + 1 implies (#[trigger] out@[k]).0@ == months@[k]@ && out@[k].1
            == -month_outflow(splits@, months@[k]@) && -month_outflow(splits@, months@[k]@)
            <= i64_max() by {
            if k < i {
                assert(out@[k] == before[k]);
            } else {
                assert(out@[k] == (m, v));
            }
        }
        i = i + 1;
    }
    assert forall|k: int| 0 <= k < months@.len() implies -month_outflow(splits@, (#[trigger] months@[k])@)
        <= i64_max() by {
        assert(out@[k].0@ == months@[k]@);
    }
    Ok(out)
}

} // verus!
