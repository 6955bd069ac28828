//! Bank CSV exports: header preview, column mapping, and per-row parsing.

use vstd::prelude::*;
use chrono::Datelike;
use crate::commands::budget::month_length;
use crate::import::json::{json_object_text, json_string_object, members_view};
use crate::import::amount::{
    amount_cents, amount_error, debug_escaped, debug_text, decimal_cents, keep_amount, unsigned_body,
};
use crate::text::{concat_str, decimal_text, str_eq, padded_int_text, string_from_chars, trim, trimmed_chars, trimmed_string};

verus! {

/// Strip currency symbols, commas, and parenthetical negation; return cents.
///
/// Handles: "$1,234.56", "(50.00)", "-12.50", "12.50", "1234", "0.01".
/// Sign convention: negative = outflow, positive = inflow.
///
/// The cents are computed exactly in decimal: the value is rounded to the
/// cent half away from zero, judged by the third decimal digit, so "1.005"
/// gives 101 cents (binary floating point would see 1.00499… and give 100).
/// Magnitudes beyond `i64::MAX` cents stop at `i64::MAX`.
pub fn parse_amount(s: &str) -> (r: Result<i64, String>)
    ensures
        r is Ok <==> amount_cents(s@) is Some,
        r matches Ok(v) ==> v == amount_cents(s@)->0,
        r matches Err(e) ==> e@ == amount_error(s@),
{
    let t = trimmed_chars(s);
    let negative = t.len() > 0 && t[0] == '(' && t[t.len() - 1] == ')';
    let k = keep_amount(t.as_slice());
    let minus = k.len() > 0 && k[0] == '-';
    let mut body: Vec<char> = Vec::new();
    let start: usize = if minus { 1 } else { 0 };
    let mut i: usize = start;
    while i < k.len()
        invariant
            start <= i <= k@.len(),
            start == (if minus { 1usize } else { 0usize }),
            minus == (k@.len() > 0 && k@[0] == '-'),
            body@ =~= k@.subrange(start as int, i as int),
        decreases k@.len() - i,
    {
        body.push(k[i]);
        i = i + 1;
    }
    assert(body@ =~= unsigned_body(k@));
    match decimal_cents(body.as_slice()) {
        Some(c) => {
            if negative || minus {
                Ok(-c)
            } else {
                Ok(c)
            }
        },
        None => {
            let ts = string_from_chars(t.as_slice());
            let d = debug_text(ts.as_str());
            Err(concat_str("cannot parse amount: ", d.as_str()))
        },
    }
}

/// The years a `chrono::NaiveDate` can hold.
pub open spec fn min_year() -> int {
    -262143
}

pub open spec fn max_year() -> int {
    262142
}

/// A calendar date that exists, within chrono's range.
pub open spec fn valid_ymd(y: int, m: int, d: int) -> bool {
    &&& min_year() <= y <= max_year()
    &&& 1 <= m <= 12
    &&& 1 <= d <= month_length(y, m)
}

pub open spec fn ymd_view(o: Option<(i32, u32, u32)>) -> Option<(int, int, int)> {
    match o {
        Some(t) => Some((t.0 as int, t.1 as int, t.2 as int)),
        None => None,
    }
}

/// The date that `chrono::NaiveDate::parse_from_str` reads from a text in a
/// format, as year, month and day.
pub uninterp spec fn chrono_parsed_ymd(s: Seq<char>, fmt: Seq<char>) -> Option<(int, int, int)>;

/// `NaiveDate::parse_from_str(s, fmt)`, as year, month and day. What it
/// accepts is named, not described; what it gives is a date that exists,
/// as a `NaiveDate` always is.
#[verifier::external_body]
fn parse_ymd(s: &str, fmt: &str) -> (r: Option<(i32, u32, u32)>)
    ensures
        ymd_view(r) == chrono_parsed_ymd(s@, fmt@),
        r matches Some(t) ==> valid_ymd(t.0 as int, t.1 as int, t.2 as int),
{
    chrono::NaiveDate::parse_from_str(s, fmt).ok().map(|d| (d.year(), d.month(), d.day()))
}

/// `NaiveDate::with_year`: the same month and day in another year, when
/// that date exists.
#[verifier::external_body]
fn ymd_with_year(y: i32, m: u32, d: u32, year: i32) -> (r: Option<(i32, u32, u32)>)
    requires
        valid_ymd(y as int, m as int, d as int),
    ensures
        ymd_view(r) == (if valid_ymd(year as int, m as int, d as int) {
            Some((year as int, m as int, d as int))
        } else {
            None
        }),
{
    chrono::NaiveDate::from_ymd_opt(y, m, d).and_then(|x| x.with_year(year)).map(
        |x| (x.year(), x.month(), x.day()),
    )
}

/// `%Y`: four digits, zero-padded, for years 0 to 9999; a sign and at
/// least four digits otherwise.
pub open spec fn year_text(y: int) -> Seq<char> {
    if 0 <= y <= 9999 {
        padded_int_text(y, 4)
    } else if y < 0 {
        padded_int_text(y, 5)
    } else {
        seq!['+'] + decimal_text(y as nat)
    }
}

/// `%Y-%m-%d` of a date.
pub open spec fn iso_date_text(y: int, m: int, d: int) -> Seq<char> {
    year_text(y) + seq!['-'] + padded_int_text(m, 2) + seq!['-'] + padded_int_text(d, 2)
}

/// `NaiveDate::format("%Y-%m-%d").to_string()` of an existing date.
#[verifier::external_body]
fn format_ymd(y: i32, m: u32, d: u32) -> (r: String)
    requires
        valid_ymd(y as int, m as int, d as int),
    ensures
        r@ == iso_date_text(y as int, m as int, d as int),
{
    chrono::NaiveDate::from_ymd_opt(y, m, d).map(|x| x.format("%Y-%m-%d").to_string()).unwrap_or_default()
}

/// The first of the accepted formats that reads the text: ISO
/// (`2026-08-22`), US with a full year (`08/22/2026`, `8/22/2026`), US with
/// a two-digit year (`08/22/26`).
pub open spec fn first_parsed_ymd(t: Seq<char>) -> Option<(int, int, int)> {
    match chrono_parsed_ymd(t, "%Y-%m-%d"@) {
        Some(d) => Some(d),
        None => match chrono_parsed_ymd(t, "%m/%d/%Y"@) {
            Some(d) => Some(d),
            None => chrono_parsed_ymd(t, "%m/%d/%y"@),
        },
    }
}

/// A CSV date as `YYYY-MM-DD`; two-digit years (read as years below 100)
/// are moved to 2000 and later.
pub open spec fn csv_date(s: Seq<char>) -> Result<Seq<char>, Seq<char>> {
    let t = trim(s);
    match first_parsed_ymd(t) {
        None => Err("unrecognized date format: "@ + debug_escaped(t)),
        Some(ymd) => {
            let (y, m, d) = ymd;
            if y < 100 {
                if valid_ymd(y + 2000, m, d) {
                    Ok(iso_date_text(y + 2000, m, d))
                } else {
                    Err("year adjustment failed for "@ + debug_escaped(t))
                }
            } else {
                Ok(iso_date_text(y, m, d))
            }
        },
    }
}

/// Parse a date string into YYYY-MM-DD. Tries ISO then common US formats.
///
/// 2-digit years (via %y) are adjusted to 2000+: chrono returns them as
/// 00xx, which would silently misfile transactions.
pub fn parse_date(s: &str) -> (r: Result<String, String>)
    ensures
        r matches Ok(d) ==> csv_date(s@) == Ok::<Seq<char>, Seq<char>>(d@),
        r matches Err(e) ==> csv_date(s@) == Err::<Seq<char>, Seq<char>>(e@),
{
    let t = trimmed_string(s);
    let mut parsed = parse_ymd(t.as_str(), "%Y-%m-%d");
    if parsed.is_none() {
        parsed = parse_ymd(t.as_str(), "%m/%d/%Y");
    }
    if parsed.is_none() {
        parsed = parse_ymd(t.as_str(), "%m/%d/%y");
    }
    match parsed {
        None => {
            let d = debug_text(t.as_str());
            Err(concat_str("unrecognized date format: ", d.as_str()))
        },
        Some((y, m, d)) => {
            if y < 100 {
                match ymd_with_year(y, m, d, y + 2000) {
                    Some((y2, m2, d2)) => Ok(format_ymd(y2, m2, d2)),
                    None => {
                        let dt = debug_text(t.as_str());
                        Err(concat_str("year adjustment failed for ", dt.as_str()))
                    },
                }
            } else {
                Ok(format_ymd(y, m, d))
            }
        },
    }
}

#[derive(Debug)]
pub struct CsvPreview {
    pub headers: Vec<String>,
    pub sample_rows: Vec<Vec<String>>,
}

/// Column mapping provided by the user after previewing the CSV headers.
///
/// Either `amount_col` must be Some (single-column mode) or both
/// `debit_col` and `credit_col` must be Some (split-column mode).
#[derive(Debug)]
pub struct ColumnMapping {
    pub date_col: String,
    pub description_col: String,
    pub amount_col: Option<String>,
    /// Negate the value from `amount_col` before storing. Used when the bank
    /// exports debits as positive numbers.
    pub flip_sign: bool,
    pub debit_col: Option<String>,
    pub credit_col: Option<String>,
}

/// One successfully parsed row, ready for DB insertion.
#[derive(Debug)]
pub struct ParsedRow {
    pub date: String,
    pub amount_cents: i64,
    pub description: String,
    /// The CSV record serialized as a JSON object keyed by header name.
    pub raw_json: String,
}

#[derive(Debug, PartialEq, Eq, Structural)]
pub enum AmountMode {
    Single { idx: usize },
    Split { debit_idx: usize, credit_idx: usize },
}

pub open spec fn fields_view(v: Vec<String>) -> Seq<Seq<char>> {
    v@.map_values(|f: String| f@)
}

pub open spec fn record_view(r: Result<Vec<String>, String>) -> Result<Seq<Seq<char>>, Seq<char>> {
    match r {
        Ok(v) => Ok(fields_view(v)),
        Err(e) => Err(e@),
    }
}

/// The header row that `csv::Reader` (default settings: comma-separated,
/// a header row, records of equal length) reads from a text, or the text
/// of its error.
pub uninterp spec fn csv_header_fields(content: Seq<char>) -> Result<Seq<Seq<char>>, Seq<char>>;

/// The data records that `csv::Reader` (same settings) reads from a text
/// after its header row, each as its fields or the text of its error.
pub uninterp spec fn csv_record_fields(content: Seq<char>) -> Seq<Result<Seq<Seq<char>>, Seq<char>>>;

/// `csv::Reader::from_reader(..).headers()`, fields as strings, the error
/// as its message.
#[verifier::external_body]
fn csv_header_row(content: &str) -> (r: Result<Vec<String>, String>)
    ensures
        record_view(r) == csv_header_fields(content@),
{
    let mut rdr = csv::Reader::from_reader(content.as_bytes());
    rdr.headers().map(|h| h.iter().map(|f| f.to_owned()).collect()).map_err(|e| e.to_string())
}

/// `csv::Reader::from_reader(..).records()`, each record's fields as
/// strings, each error as its message.
#[verifier::external_body]
fn csv_data_rows(content: &str) -> (r: Vec<Result<Vec<String>, String>>)
    ensures
        r@.map_values(|x: Result<Vec<String>, String>| record_view(x)) == csv_record_fields(content@),
{
    let mut rdr = csv::Reader::from_reader(content.as_bytes());
    rdr.records().map(
        |r| r.map(|rec| rec.iter().map(|f| f.to_owned()).collect()).map_err(|e| e.to_string()),
    ).collect()
}

pub open spec fn read_error(e: Seq<char>) -> Seq<char> {
    "CSV read error: "@ + e
}

/// The first records, up to five, stopping at the first one that failed.
pub open spec fn sample_of(records: Seq<Result<Seq<Seq<char>>, Seq<char>>>, k: int) -> Result<
    Seq<Seq<Seq<char>>>,
    Seq<char>,
>
    decreases k,
{
    if k <= 0 || records.len() == 0 {
        Ok(Seq::empty())
    } else {
        match records[0] {
            Err(e) => Err(read_error(e)),
            Ok(row) => match sample_of(records.drop_first(), k - 1) {
                Ok(rest) => Ok(seq![row] + rest),
                Err(e) => Err(e),
            },
        }
    }
}

proof fn lemma_sample_len(records: Seq<Result<Seq<Seq<char>>, Seq<char>>>, k: int)
    ensures
        sample_of(records, k) matches Ok(rows) ==> rows.len() <= (if k > 0 { k } else { 0 }),
    decreases k,
{
    if k > 0 && records.len() > 0 {
        lemma_sample_len(records.drop_first(), k - 1);
    }
}

/// The preview never shows more than five data rows.
pub proof fn preview_holds_at_most_five_rows(
    header: Result<Seq<Seq<char>>, Seq<char>>,
    records: Seq<Result<Seq<Seq<char>>, Seq<char>>>,
)
    ensures
        preview_outcome(header, records) matches Ok(p) ==> p.1.len() <= 5,
{
    lemma_sample_len(records, 5);
}

/// What the preview shows: the header row and up to five data rows.
pub open spec fn preview_outcome(
    header: Result<Seq<Seq<char>>, Seq<char>>,
    records: Seq<Result<Seq<Seq<char>>, Seq<char>>>,
) -> Result<(Seq<Seq<char>>, Seq<Seq<Seq<char>>>), Seq<char>> {
    match header {
        Err(e) => Err(read_error(e)),
        Ok(h) => match sample_of(records, 5) {
            Err(e) => Err(e),
            Ok(rows) => Ok((h, rows)),
        },
    }
}

pub open spec fn preview_view(p: CsvPreview) -> (Seq<Seq<char>>, Seq<Seq<Seq<char>>>) {
    (fields_view(p.headers), p.sample_rows@.map_values(|r: Vec<String>| fields_view(r)))
}

fn copy_strings(v: &Vec<String>) -> (r: Vec<String>)
    ensures
        fields_view(r) == fields_view(*v),
{
    let mut r: Vec<String> = Vec::new();
    for i in 0..v.len()
        invariant
            r@.len() == i,
            forall|k: int| 0 <= k < i ==> r@[k]@ == v@[k]@,
    {
        r.push(String::from_str(v[i].as_str()));
    }
    assert(fields_view(r) =~= fields_view(*v));
    r
}

proof fn lemma_sample_step(records: Seq<Result<Seq<Seq<char>>, Seq<char>>>, i: int, k: int)
    requires
        0 <= i < records.len(),
        0 < k,
    ensures
        sample_of(records.subrange(i, records.len() as int), k) == match records[i] {
            Err(e) => Err(read_error(e)),
            Ok(row) => match sample_of(records.subrange(i + 1, records.len() as int), k - 1) {
                Ok(rest) => Ok(seq![row] + rest),
                Err(e) => Err::<Seq<Seq<Seq<char>>>, Seq<char>>(e),
            },
        },
{
    assert(records.subrange(i, records.len() as int).drop_first() =~= records.subrange(
        i + 1,
        records.len() as int,
    ));
}

proof fn lemma_sample_err(rv: Seq<Result<Seq<Seq<char>>, Seq<char>>>, j: int, i: int, e: Seq<char>)
    requires
        0 <= j <= i < rv.len(),
        i < 5,
        forall|k: int| j <= k < i ==> #[trigger] rv[k] is Ok,
        rv[i] == Err::<Seq<Seq<char>>, Seq<char>>(e),
    ensures
        sample_of(rv.subrange(j, rv.len() as int), 5 - j) == Err::<Seq<Seq<Seq<char>>>, Seq<char>>(
            read_error(e),
        ),
    decreases i - j,
{
    lemma_sample_step(rv, j, 5 - j);
    if j < i {
        assert(rv[j] is Ok);
        lemma_sample_err(rv, j + 1, i, e);
    }
}

proof fn lemma_sample_ok(
    rv: Seq<Result<Seq<Seq<char>>, Seq<char>>>,
    rows: Seq<Seq<Seq<char>>>,
    j: int,
    n: int,
)
    requires
        0 <= j <= n,
        n == (if rv.len() < 5 { rv.len() as int } else { 5 }),
        rows.len() == n,
        forall|k: int| 0 <= k < n ==> #[trigger] rv[k] == Ok::<Seq<Seq<char>>, Seq<char>>(rows[k]),
    ensures
        sample_of(rv.subrange(j, rv.len() as int), 5 - j) == Ok::<Seq<Seq<Seq<char>>>, Seq<char>>(
            rows.subrange(j, n),
        ),
    decreases n - j,
{
    if j < n {
        lemma_sample_step(rv, j, 5 - j);
        lemma_sample_ok(rv, rows, j + 1, n);
        assert(rv[j] == Ok::<Seq<Seq<char>>, Seq<char>>(rows[j]));
        assert(seq![rows[j]] + rows.subrange(j + 1, n) =~= rows.subrange(j, n));
    } else {
        assert(rows.subrange(j, n) =~= Seq::<Seq<Seq<char>>>::empty());
    }
}

/// The preview made of the reader's header row and records: the header
/// row and up to five data rows, or the first read error among them.
pub fn preview_from(header: Result<Vec<String>, String>, records: Vec<Result<Vec<String>, String>>) -> (r:
    Result<CsvPreview, String>)
    ensures
        match r {
            Ok(p) => preview_outcome(
                record_view(header),
                records@.map_values(|x: Result<Vec<String>, String>| record_view(x)),
            ) == Ok::<(Seq<Seq<char>>, Seq<Seq<Seq<char>>>), Seq<char>>(preview_view(p)),
            Err(e) => preview_outcome(
                record_view(header),
                records@.map_values(|x: Result<Vec<String>, String>| record_view(x)),
            ) == Err::<(Seq<Seq<char>>, Seq<Seq<Seq<char>>>), Seq<char>>(e@),
        },
{
    let ghost rv = records@.map_values(|x: Result<Vec<String>, String>| record_view(x));
    let headers = match header {
        Ok(h) => h,
        Err(e) => return Err(concat_str("CSV read error: ", e.as_str())),
    };
    let n: usize = if records.len() < 5 { records.len() } else { 5 };
    let mut rows: Vec<Vec<String>> = Vec::new();
    let mut i: usize = 0;
    while i < n
        invariant
            n <= records@.len(),
            n == (if records@.len() < 5 { records@.len() } else { 5 }),
            i <= n,
            rv == records@.map_values(|x: Result<Vec<String>, String>| record_view(x)),
            rows@.len() == i,
            record_view(header) is Ok,
            forall|k: int| 0 <= k < i ==> rv[k] == Ok::<Seq<Seq<char>>, Seq<char>>(fields_view(#[trigger] rows@[k])),
        decreases n - i,
    {
        match &records[i] {
            Ok(row) => rows.push(copy_strings(row)),
            Err(e) => {
                proof {
                    assert(rv[i as int] == Err::<Seq<Seq<char>>, Seq<char>>(e@));
                    assert forall|k: int| 0 <= k < i implies #[trigger] rv[k] is Ok by {
                        assert(rv[k] == Ok::<Seq<Seq<char>>, Seq<char>>(fields_view(rows@[k])));
                    }
                    lemma_sample_err(rv, 0, i as int, e@);
                    assert(rv.subrange(0, rv.len() as int) =~= rv);
                }
                return Err(concat_str("CSV read error: ", e.as_str()));
            },
        }
        i = i + 1;
    }
    proof {
        let rows_v = rows@.map_values(|r: Vec<String>| fields_view(r));
        assert forall|k: int| 0 <= k < n implies rv[k] == Ok::<Seq<Seq<char>>, Seq<char>>(rows_v[k]) by {
            assert(rv[k] == Ok::<Seq<Seq<char>>, Seq<char>>(fields_view(rows@[k])));
        }
        lemma_sample_ok(rv, rows_v, 0, n as int);
        assert(rv.subrange(0, rv.len() as int) =~= rv);
        assert(rows_v.subrange(0, n as int) =~= rows_v);
    }
    Ok(CsvPreview { headers, sample_rows: rows })
}

/// Read the CSV header row and up to 5 data rows for the column-mapping UI.
pub fn extract_preview(content: &str) -> (r: Result<CsvPreview, String>)
    ensures
        match r {
            Ok(p) => preview_outcome(csv_header_fields(content@), csv_record_fields(content@)) == Ok::<
                (Seq<Seq<char>>, Seq<Seq<Seq<char>>>),
                Seq<char>,
            >(preview_view(p)),
            Err(e) => preview_outcome(csv_header_fields(content@), csv_record_fields(content@))
                == Err::<(Seq<Seq<char>>, Seq<Seq<Seq<char>>>), Seq<char>>(e@),
        },
{
    let header = csv_header_row(content);
    match header {
        Err(e) => Err(concat_str("CSV read error: ", e.as_str())),
        Ok(h) => {
            let records = csv_data_rows(content);
            preview_from(Ok(h), records)
        },
    }
}

/// The first header equal to `col`.
pub open spec fn position_of(headers: Seq<Seq<char>>, col: Seq<char>, from: int) -> Option<int>
    decreases headers.len() - from,
{
    if from < 0 || from >= headers.len() {
        None
    } else if headers[from] == col {
        Some(from)
    } else {
        position_of(headers, col, from + 1)
    }
}

pub open spec fn col_index_outcome(headers: Seq<Seq<char>>, col: Seq<char>) -> Result<int, Seq<char>> {
    match position_of(headers, col, 0) {
        Some(i) => Ok(i),
        None => Err("column "@ + debug_escaped(col) + " not found in CSV headers"@),
    }
}

/// The position of the header named `col`.
pub fn col_index(headers: &[String], col: &str) -> (r: Result<usize, String>)
    ensures
        r matches Ok(i) ==> col_index_outcome(headers@.map_values(|h: String| h@), col@) == Ok::<
            int,
            Seq<char>,
        >(i as int),
        r matches Err(e) ==> col_index_outcome(headers@.map_values(|h: String| h@), col@) == Err::<
            int,
            Seq<char>,
        >(e@),
{
    let ghost hv = headers@.map_values(|h: String| h@);
    let mut i: usize = 0;
    while i < headers.len()
        invariant
            i <= headers@.len(),
            hv == headers@.map_values(|h: String| h@),
            position_of(hv, col@, 0) == position_of(hv, col@, i as int),
        decreases headers@.len() - i,
    {
        if str_eq(headers[i].as_str(), col) {
            return Ok(i);
        }
        i = i + 1;
    }
    let d = debug_text(col);
    let head = concat_str("column ", d.as_str());
    Err(concat_str(head.as_str(), " not found in CSV headers"))
}

/// The cell at `i`, or empty past the end of the row.
pub open spec fn cell(row: Seq<Seq<char>>, i: int) -> Seq<char> {
    if 0 <= i < row.len() {
        row[i]
    } else {
        Seq::empty()
    }
}

pub open spec fn parsed_amount(cell: Seq<char>) -> Result<int, Seq<char>> {
    match amount_cents(cell) {
        Some(v) => Ok(v),
        None => Err(amount_error(cell)),
    }
}

/// The signed amount of a row. One column: its amount, negated when the
/// bank writes outflows as positive numbers. Debit and credit columns: a
/// debit is an outflow, a credit an inflow; where a bank fills both, the
/// debit wins unless it is zero.
pub open spec fn row_amount(row: Seq<Seq<char>>, mode: AmountMode, flip_sign: bool) -> Result<int, Seq<char>> {
    match mode {
        AmountMode::Single { idx } => {
            let c = cell(row, idx as int);
            if trim(c).len() == 0 {
                Err("empty amount cell"@)
            } else {
                match parsed_amount(c) {
                    Err(e) => Err(e),
                    Ok(v) => Ok(if flip_sign { -v } else { v }),
                }
            }
        },
        AmountMode::Split { debit_idx, credit_idx } => {
            let d = trim(cell(row, debit_idx as int));
            let c = trim(cell(row, credit_idx as int));
            if d.len() == 0 && c.len() == 0 {
                Err("both debit and credit cells are empty"@)
            } else if d.len() > 0 && c.len() > 0 {
                match parsed_amount(d) {
                    Err(e) => Err(e),
                    Ok(dv) => match parsed_amount(c) {
                        Err(e) => Err(e),
                        Ok(cv) => Ok(if dv != 0 { -dv } else { cv }),
                    },
                }
            } else if d.len() > 0 {
                match parsed_amount(d) {
                    Err(e) => Err(e),
                    Ok(dv) => Ok(-dv),
                }
            } else {
                parsed_amount(c)
            }
        },
    }
}

/// A CSV row's fields: date, amount in cents, description, raw JSON.
pub open spec fn csv_row_outcome(
    row: Seq<Seq<char>>,
    date_idx: int,
    desc_idx: int,
    mode: AmountMode,
    flip_sign: bool,
    raw_json: Seq<char>,
) -> Result<(Seq<char>, int, Seq<char>, Seq<char>), Seq<char>> {
    let date_str = cell(row, date_idx);
    if trim(date_str).len() == 0 {
        Err("empty date cell"@)
    } else {
        match csv_date(date_str) {
            Err(e) => Err(e),
            Ok(date) => match row_amount(row, mode, flip_sign) {
                Err(e) => Err(e),
                Ok(cents) => Ok((date, cents, trim(cell(row, desc_idx)), raw_json)),
            },
        }
    }
}

pub open spec fn csv_row_view(r: Result<ParsedRow, String>) -> Result<(Seq<char>, int, Seq<char>, Seq<char>), Seq<char>> {
    match r {
        Ok(p) => Ok((p.date@, p.amount_cents as int, p.description@, p.raw_json@)),
        Err(e) => Err(e@),
    }
}

fn cell_text(row: &[String], i: usize) -> (r: String)
    ensures
        r@ == cell(row@.map_values(|f: String| f@), i as int),
{
    if i < row.len() {
        String::from_str(row[i].as_str())
    } else {
        String::new()
    }
}

fn amount_of(cell: &str) -> (r: Result<i64, String>)
    ensures
        r matches Ok(v) ==> parsed_amount(cell@) == Ok::<int, Seq<char>>(v as int) && v != i64::MIN,
        r matches Err(e) ==> parsed_amount(cell@) == Err::<int, Seq<char>>(e@),
{
    parse_amount(cell)
}

/// One CSV row as a parsed row, or why it is skipped.
pub fn parse_row(
    row: &[String],
    date_idx: usize,
    desc_idx: usize,
    amount_mode: &AmountMode,
    flip_sign: bool,
    raw_json: &str,
) -> (r: Result<ParsedRow, String>)
    ensures
        csv_row_view(r) == csv_row_outcome(
            row@.map_values(|f: String| f@),
            date_idx as int,
            desc_idx as int,
            *amount_mode,
            flip_sign,
            raw_json@,
        ),
{
    let ghost rv = row@.map_values(|f: String| f@);
    let date_str = cell_text(row, date_idx);
    let desc_cell = cell_text(row, desc_idx);
    let desc = trimmed_string(desc_cell.as_str());
    let date_trim = trimmed_string(date_str.as_str());
    if date_trim.as_str().is_empty() {
        return Err(String::from_str("empty date cell"));
    }
    let date = match parse_date(date_str.as_str()) {
        Ok(d) => d,
        Err(e) => return Err(e),
    };
    let amount_cents: i64 = match amount_mode {
        AmountMode::Single { idx } => {
            let c = cell_text(row, *idx);
            let ct = trimmed_string(c.as_str());
            if ct.as_str().is_empty() {
                return Err(String::from_str("empty amount cell"));
            }
            let cents = match amount_of(c.as_str()) {
                Ok(v) => v,
                Err(e) => return Err(e),
            };
            if flip_sign {
                -cents
            } else {
                cents
            }
        },
        AmountMode::Split { debit_idx, credit_idx } => {
            let dc = cell_text(row, *debit_idx);
            let cc = cell_text(row, *credit_idx);
            let d = trimmed_string(dc.as_str());
            let c = trimmed_string(cc.as_str());
            let d_empty = d.as_str().is_empty();
            let c_empty = c.as_str().is_empty();
            if d_empty && c_empty {
                return Err(String::from_str("both debit and credit cells are empty"));
            } else if !d_empty && !c_empty {
                let dv = match amount_of(d.as_str()) {
                    Ok(v) => v,
                    Err(e) => return Err(e),
                };
                let cv = match amount_of(c.as_str()) {
                    Ok(v) => v,
                    Err(e) => return Err(e),
                };
                if dv != 0 {
                    -dv
                } else {
                    cv
                }
            } else if !d_empty {
                match amount_of(d.as_str()) {
                    Ok(v) => -v,
                    Err(e) => return Err(e),
                }
            } else {
                match amount_of(c.as_str()) {
                    Ok(v) => v,
                    Err(e) => return Err(e),
                }
            }
        },
    };
    Ok(ParsedRow { date, amount_cents, description: desc, raw_json: String::from_str(raw_json) })
}

/// Where the amount of a row is read from: the one amount column, or the
/// debit and credit columns.
pub open spec fn amount_mode_outcome(
    headers: Seq<Seq<char>>,
    amount_col: Option<Seq<char>>,
    debit_col: Option<Seq<char>>,
    credit_col: Option<Seq<char>>,
) -> Result<AmountMode, Seq<char>> {
    match amount_col {
        Some(col) => match col_index_outcome(headers, col) {
            Ok(i) => Ok(AmountMode::Single { idx: i as usize }),
            Err(e) => Err(e),
        },
        None => match debit_col {
            None => Err("debit_col required in debit/credit mode"@),
            Some(d) => match credit_col {
                None => Err("credit_col required in debit/credit mode"@),
                Some(c) => match col_index_outcome(headers, d) {
                    Err(e) => Err(e),
                    Ok(di) => match col_index_outcome(headers, c) {
                        Err(e) => Err(e),
                        Ok(ci) => Ok(AmountMode::Split { debit_idx: di as usize, credit_idx: ci as usize }),
                    },
                },
            },
        },
    }
}

pub open spec fn opt_str(o: Option<String>) -> Option<Seq<char>> {
    match o {
        Some(s) => Some(s@),
        None => None,
    }
}

fn amount_mode_of(headers: &[String], mapping: &ColumnMapping) -> (r: Result<AmountMode, String>)
    ensures
        r matches Ok(m) ==> amount_mode_outcome(
            headers@.map_values(|h: String| h@),
            opt_str(mapping.amount_col),
            opt_str(mapping.debit_col),
            opt_str(mapping.credit_col),
        ) == Ok::<AmountMode, Seq<char>>(m),
        r matches Err(e) ==> amount_mode_outcome(
            headers@.map_values(|h: String| h@),
            opt_str(mapping.amount_col),
            opt_str(mapping.debit_col),
            opt_str(mapping.credit_col),
        ) == Err::<AmountMode, Seq<char>>(e@),
{
    match &mapping.amount_col {
        Some(col) => match col_index(headers, col.as_str()) {
            Ok(i) => Ok(AmountMode::Single { idx: i }),
            Err(e) => Err(e),
        },
        None => {
            let d = match &mapping.debit_col {
                Some(d) => d,
                None => return Err(String::from_str("debit_col required in debit/credit mode")),
            };
            let c = match &mapping.credit_col {
                Some(c) => c,
                None => return Err(String::from_str("credit_col required in debit/credit mode")),
            };
            let di = match col_index(headers, d.as_str()) {
                Ok(i) => i,
                Err(e) => return Err(e),
            };
            let ci = match col_index(headers, c.as_str()) {
                Ok(i) => i,
                Err(e) => return Err(e),
            };
            Ok(AmountMode::Split { debit_idx: di, credit_idx: ci })
        },
    }
}

/// The header / value pairs of a record, as far as both go.
pub open spec fn zip_members(h: Seq<Seq<char>>, r: Seq<Seq<char>>) -> Seq<(Seq<char>, Seq<char>)> {
    Seq::new(if h.len() < r.len() { h.len() } else { r.len() }, |i: int| (h[i], r[i]))
}

/// The columns a mapping names, found among the headers: the date column,
/// the description column and the amount mode.
pub open spec fn columns_outcome(headers: Seq<Seq<char>>, m: ColumnMapping) -> Result<(int, int, AmountMode), Seq<char>> {
    match col_index_outcome(headers, m.date_col@) {
        Err(e) => Err(e),
        Ok(di) => match col_index_outcome(headers, m.description_col@) {
            Err(e) => Err(e),
            Ok(si) => match amount_mode_outcome(
                headers,
                opt_str(m.amount_col),
                opt_str(m.debit_col),
                opt_str(m.credit_col),
            ) {
                Err(e) => Err(e),
                Ok(mode) => Ok((di, si, mode)),
            },
        },
    }
}

/// What one record of the reader gives: a read error, or the parsed row
/// with the record as JSON keyed by header.
pub open spec fn record_outcome(
    headers: Seq<Seq<char>>,
    rec: Result<Seq<Seq<char>>, Seq<char>>,
    date_idx: int,
    desc_idx: int,
    mode: AmountMode,
    flip_sign: bool,
) -> Result<(Seq<char>, int, Seq<char>, Seq<char>), Seq<char>> {
    match rec {
        Err(e) => Err(read_error(e)),
        Ok(row) => csv_row_outcome(
            row,
            date_idx,
            desc_idx,
            mode,
            flip_sign,
            json_string_object(zip_members(headers, row)),
        ),
    }
}

/// Every record parsed with the mapping, given the reader's header row and
/// records.
pub open spec fn rows_outcome_ok(
    headers: Seq<Seq<char>>,
    records: Seq<Result<Seq<Seq<char>>, Seq<char>>>,
    m: ColumnMapping,
    rows: Seq<Result<ParsedRow, String>>,
) -> bool {
    columns_outcome(headers, m) matches Ok(cols) && rows.len() == records.len() && forall|k: int|
        0 <= k < rows.len() ==> csv_row_view(#[trigger] rows[k]) == record_outcome(
            headers,
            records[k],
            cols.0,
            cols.1,
            cols.2,
            m.flip_sign,
        )
}

fn raw_members(headers: &[String], row: &[String]) -> (r: Vec<(String, String)>)
    ensures
        members_view(r@) == zip_members(
            headers@.map_values(|h: String| h@),
            row@.map_values(|f: String| f@),
        ),
{
    let n = if headers.len() < row.len() { headers.len() } else { row.len() };
    let mut r: Vec<(String, String)> = Vec::new();
    for i in 0..n
        invariant
            n <= headers@.len(),
            n <= row@.len(),
            r@.len() == i,
            forall|k: int| 0 <= k < i ==> (#[trigger] r@[k]).0@ == headers@[k]@ && r@[k].1@ == row@[k]@,
    {
        r.push((String::from_str(headers[i].as_str()), String::from_str(row[i].as_str())));
    }
    assert(members_view(r@) =~= zip_members(
        headers@.map_values(|h: String| h@),
        row@.map_values(|f: String| f@),
    ));
    r
}

/// Every record parsed with the column mapping, given the reader's header
/// row and records: one result per record, or the first column of the
/// mapping that the headers lack.
pub fn rows_from(headers: Vec<String>, records: Vec<Result<Vec<String>, String>>, mapping: &ColumnMapping) -> (r:
    Result<Vec<Result<ParsedRow, String>>, String>)
    ensures
        match r {
            Ok(rows) => rows_outcome_ok(
                headers@.map_values(|h: String| h@),
                records@.map_values(|x: Result<Vec<String>, String>| record_view(x)),
                *mapping,
                rows@,
            ),
            Err(e) => columns_outcome(headers@.map_values(|h: String| h@), *mapping) == Err::<
                (int, int, AmountMode),
                Seq<char>,
            >(e@),
        },
{
    let ghost hv = headers@.map_values(|h: String| h@);
    let ghost rv = records@.map_values(|x: Result<Vec<String>, String>| record_view(x));
    let date_idx = match col_index(headers.as_slice(), mapping.date_col.as_str()) {
        Ok(i) => i,
        Err(e) => return Err(e),
    };
    let desc_idx = match col_index(headers.as_slice(), mapping.description_col.as_str()) {
        Ok(i) => i,
        Err(e) => return Err(e),
    };
    let mode = match amount_mode_of(headers.as_slice(), mapping) {
        Ok(m) => m,
        Err(e) => return Err(e),
    };
    assert(columns_outcome(hv, *mapping) == Ok::<(int, int, AmountMode), Seq<char>>(
        (date_idx as int, desc_idx as int, mode),
    ));
    let mut results: Vec<Result<ParsedRow, String>> = Vec::new();
    let n = records.len();
    for i in 0..n
        invariant
            n == records@.len(),
            hv == headers@.map_values(|h: String| h@),
            rv == records@.map_values(|x: Result<Vec<String>, String>| record_view(x)),
            results@.len() == i,
            forall|k: int|
                0 <= k < i ==> csv_row_view(#[trigger] results@[k]) == record_outcome(
                    hv,
                    rv[k],
                    date_idx as int,
                    desc_idx as int,
                    mode,
                    mapping.flip_sign,
                ),
    {
        match &records[i] {
            Err(e) => {
                results.push(Err(concat_str("CSV read error: ", e.as_str())));
            },
            Ok(row) => {
                let members = raw_members(headers.as_slice(), row.as_slice());
                let raw_json = json_object_text(&members);
                results.push(
                    parse_row(row.as_slice(), date_idx, desc_idx, &mode, mapping.flip_sign, raw_json.as_str()),
                );
            },
        }
    }
    Ok(results)
}

/// What parsing a CSV text with a column mapping gives.
pub open spec fn parse_rows_ok(content: Seq<char>, m: ColumnMapping, rows: Seq<Result<ParsedRow, String>>) -> bool {
    csv_header_fields(content) matches Ok(h) && rows_outcome_ok(h, csv_record_fields(content), m, rows)
}

pub open spec fn parse_rows_error(content: Seq<char>, m: ColumnMapping) -> Option<Seq<char>> {
    match csv_header_fields(content) {
        Err(e) => Some(read_error(e)),
        Ok(h) => match columns_outcome(h, m) {
            Err(e) => Some(e),
            Ok(_) => None,
        },
    }
}

/// Parse every data row using the provided column mapping.
///
/// Returns one Result per row; parse errors are Err so the caller can count
/// skipped rows and collect their messages without aborting the import.
pub fn parse_rows(content: &str, mapping: &ColumnMapping) -> (r: Result<Vec<Result<ParsedRow, String>>, String>)
    ensures
        match r {
            Ok(rows) => parse_rows_ok(content@, *mapping, rows@),
            Err(e) => parse_rows_error(content@, *mapping) == Some(e@),
        },
{
    let headers = match csv_header_row(content) {
        Ok(h) => h,
        Err(e) => return Err(concat_str("CSV read error: ", e.as_str())),
    };
    let records = csv_data_rows(content);
    rows_from(headers, records, mapping)
}

/// In the one-column mode, the sign flip negates the amount and nothing
/// else: a row read with `flip_sign` gives the same date, description and
/// raw record as without it and exactly the negated amount (a negative
/// cell becomes an inflow), and fails exactly where it fails without it,
/// with the same error. In the debit and credit mode the flip changes
/// nothing.
pub proof fn flip_sign_negates_amount(
    row: Seq<Seq<char>>,
    date_idx: int,
    desc_idx: int,
    mode: AmountMode,
    raw_json: Seq<char>,
)
    ensures
        mode is Single ==> match (
            csv_row_outcome(row, date_idx, desc_idx, mode, false, raw_json),
            csv_row_outcome(row, date_idx, desc_idx, mode, true, raw_json),
        ) {
            (Ok(a), Ok(b)) => b.0 == a.0 && b.1 == -a.1 && b.2 == a.2 && b.3 == a.3,
            (Err(x), Err(y)) => x == y,
            _ => false,
        },
        mode is Split ==> csv_row_outcome(row, date_idx, desc_idx, mode, true, raw_json) == csv_row_outcome(
            row,
            date_idx,
            desc_idx,
            mode,
            false,
            raw_json,
        ),
{
}

} // verus!
