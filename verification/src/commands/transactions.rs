//! Transactions as listed, annotated and exported.

use vstd::prelude::*;
use crate::text::{chars_of, decimal_text, string_from_chars};

verus! {

#[derive(Debug)]
pub struct TransactionRow {
    pub id: String,
    pub account_id: String,
    pub account_name: String,
    pub date: String,
    pub amount_cents: i64,
    pub description: String,
    pub notes: String,
    pub tags: Vec<String>,
    pub reviewed: bool,
    pub category_type: Option<String>,
    pub category_id: Option<String>,
    pub category_name: Option<String>,
}

/// One row of the transaction listing as the database gives it, with the
/// tags still as JSON text and the reviewed flag as an integer.
#[derive(Debug)]
pub struct StoredTransactionRow {
    pub id: String,
    pub account_id: String,
    pub account_name: String,
    pub date: String,
    pub amount_cents: i64,
    pub description: String,
    pub notes: String,
    pub tags_json: String,
    pub reviewed: i64,
    pub category_type: Option<String>,
    pub category_id: Option<String>,
    pub category_name: Option<String>,
}

#[derive(Debug)]
pub struct UpsertMetaArgs {
    pub transaction_id: String,
    pub notes: String,
    pub tags: Vec<String>,
    pub reviewed: bool,
}

pub open spec fn strings_of(v: Vec<String>) -> Seq<Seq<char>> {
    v@.map_values(|s: String| s@)
}

/// The list of strings that `serde_json::from_str::<Vec<String>>` reads
/// from a text, or `None` where it reports an error.
pub uninterp spec fn json_string_list(text: Seq<char>) -> Option<Seq<Seq<char>>>;

/// `serde_json::from_str::<Vec<String>>`, the error dropped. Which texts
/// it accepts, and what it reads from them, is named, not described.
#[verifier::external_body]
fn parse_string_list(text: &str) -> (r: Option<Vec<String>>)
    ensures
        match r {
            Some(v) => json_string_list(text@) == Some(strings_of(v)),
            None => json_string_list(text@) is None,
        },
{
    serde_json::from_str::<Vec<String>>(text).ok()
}

/// The JSON text that `serde_json::to_string` gives for a list of strings.
pub uninterp spec fn json_string_array(items: Seq<Seq<char>>) -> Seq<char>;

/// `serde_json::to_string` of a `Vec<String>`. It cannot fail: strings
/// always serialize, and a list has no map keys. The text itself is named.
#[verifier::external_body]
fn string_list_json(items: &Vec<String>) -> (r: String)
    ensures
        r@ == json_string_array(strings_of(*items)),
{
    serde_json::to_string(items).unwrap_or_default()
}

/// The stored tags of a transaction: the JSON list, or none when the text
/// is not a list of strings.
pub open spec fn tags_from_json(text: Seq<char>) -> Seq<Seq<char>> {
    match json_string_list(text) {
        Some(t) => t,
        None => Seq::empty(),
    }
}

pub fn tags_of(tags_json: &str) -> (r: Vec<String>)
    ensures
        strings_of(r) == tags_from_json(tags_json@),
{
    match parse_string_list(tags_json) {
        Some(v) => v,
        None => {
            let v: Vec<String> = Vec::new();
            assert(strings_of(v) =~= Seq::<Seq<char>>::empty());
            v
        },
    }
}

pub open spec fn opt_view(o: Option<String>) -> Option<Seq<char>> {
    match o {
        Some(s) => Some(s@),
        None => None,
    }
}

/// A listed transaction made from its stored row: the tags read from
/// their JSON, reviewed when the stored flag is not zero.
pub fn transaction_row(stored: StoredTransactionRow) -> (t: TransactionRow)
    ensures
        t.id@ == stored.id@,
        t.account_id@ == stored.account_id@,
        t.account_name@ == stored.account_name@,
        t.date@ == stored.date@,
        t.amount_cents == stored.amount_cents,
        t.description@ == stored.description@,
        t.notes@ == stored.notes@,
        strings_of(t.tags) == tags_from_json(stored.tags_json@),
        t.reviewed == (stored.reviewed != 0),
        opt_view(t.category_type) == opt_view(stored.category_type),
        opt_view(t.category_id) == opt_view(stored.category_id),
        opt_view(t.category_name) == opt_view(stored.category_name),
{
    let tags = tags_of(stored.tags_json.as_str());
    TransactionRow {
        id: stored.id,
        account_id: stored.account_id,
        account_name: stored.account_name,
        date: stored.date,
        amount_cents: stored.amount_cents,
        description: stored.description,
        notes: stored.notes,
        tags,
        reviewed: stored.reviewed != 0,
        category_type: stored.category_type,
        category_id: stored.category_id,
        category_name: stored.category_name,
    }
}

/// What a metadata upsert stores beside the notes: the tags as JSON and
/// the reviewed flag as 1 or 0.
pub fn meta_values(args: &UpsertMetaArgs) -> (r: (String, i64))
    ensures
        r.0@ == json_string_array(strings_of(args.tags)),
        r.1 == (if args.reviewed { 1int } else { 0int }),
{
    let tags_json = string_list_json(&args.tags);
    let reviewed_int: i64 = if args.reviewed { 1 } else { 0 };
    (tags_json, reviewed_int)
}

/// One row of the export as the database gives it.
#[derive(Debug)]
pub struct ExportRow {
    pub account: String,
    pub date: String,
    pub description: String,
    pub notes: String,
    pub tags_json: String,
    pub reviewed: i64,
    pub display_amount_cents: i64,
    pub category: String,
}

/// An amount in cents as dollars with two decimals: `-12.05`, `0.00`.
pub open spec fn cents_text(cents: int) -> Seq<char> {
    let m = if cents < 0 { -cents } else { cents };
    (if cents < 0 { seq!['-'] } else { Seq::empty() }) + decimal_text((m / 100) as nat) + seq!['.']
        + seq![crate::text::digit_char(((m % 100) / 10) as nat), crate::text::digit_char((m % 10) as nat)]
}

/// `cents_text` of an amount: dollars and cents written from the integer
/// exactly, so amounts beyond 2^53 cents keep every digit (a binary
/// float with two decimals would round them).
pub fn amount_text(cents: i64) -> (r: String)
    ensures
        r@ == cents_text(cents as int),
{
    let m: u64 = if cents < 0 { (-(cents as i128)) as u64 } else { cents as u64 };
    let whole = crate::text::int_chars((m / 100) as i64);
    let mut out: Vec<char> = Vec::new();
    if cents < 0 {
        out.push('-');
    }
    let ghost sign = if cents < 0 { seq!['-'] } else { Seq::<char>::empty() };
    assert(out@ =~= sign);
    for i in 0..whole.len()
        invariant
            out@ == sign + whole@.take(i as int),
    {
        out.push(whole[i]);
        assert(out@ =~= sign + whole@.take(i + 1));
    }
    assert(whole@.take(whole@.len() as int) =~= whole@);
    out.push('.');
    out.push(crate::text::char_of_digit(((m % 100) / 10) as u32));
    out.push(crate::text::char_of_digit((m % 10) as u32));
    assert(out@ =~= cents_text(cents as int));
    string_from_chars(out.as_slice())
}

/// The items joined with `sep` between them.
pub open spec fn joined(items: Seq<Seq<char>>, sep: Seq<char>) -> Seq<char>
    decreases items.len(),
{
    if items.len() == 0 {
        Seq::empty()
    } else if items.len() == 1 {
        items[0]
    } else {
        joined(items.drop_last(), sep) + sep + items.last()
    }
}

fn join_strings(items: &Vec<String>, sep: &str) -> (r: String)
    ensures
        r@ == joined(strings_of(*items), sep@),
{
    let sep_chars = chars_of(sep);
    let mut out: Vec<char> = Vec::new();
    let ghost sv = strings_of(*items);
    for i in 0..items.len()
        invariant
            sv == strings_of(*items),
            sep_chars@ == sep@,
            out@ == joined(sv.take(i as int), sep@),
    {
        assert(sv.take(i + 1).drop_last() =~= sv.take(i as int));
        let ghost before = out@;
        if i > 0 {
            for j in 0..sep_chars.len()
                invariant
                    out@ == before + sep_chars@.take(j as int),
            {
                out.push(sep_chars[j]);
                assert(out@ =~= before + sep_chars@.take(j + 1));
            }
            assert(sep_chars@.take(sep_chars@.len() as int) =~= sep@);
        }
        let ghost mid = out@;
        let item = chars_of(items[i].as_str());
        for j in 0..item.len()
            invariant
                out@ == mid + item@.take(j as int),
        {
            out.push(item[j]);
            assert(out@ =~= mid + item@.take(j + 1));
        }
        assert(item@.take(item@.len() as int) =~= item@);
        if i == 0 {
            assert(sv.take(1) =~= seq![sv[0]]);
            assert(out@ =~= joined(sv.take(1), sep@));
        } else {
            assert(out@ =~= joined(sv.take(i + 1), sep@));
        }
    }
    assert(sv.take(sv.len() as int) =~= sv);
    string_from_chars(out.as_slice())
}

/// The header row of the export.
pub open spec fn export_header() -> Seq<Seq<char>> {
    seq!["date"@, "account"@, "description"@, "amount"@, "category"@, "notes"@, "tags"@, "reviewed"@]
}

/// The export record of a row: date, account, description, amount in
/// dollars, category, notes, tags joined with `;`, reviewed as
/// `true`/`false`.
pub open spec fn export_fields(r: ExportRow) -> Seq<Seq<char>> {
    seq![
        r.date@,
        r.account@,
        r.description@,
        cents_text(r.display_amount_cents as int),
        r.category@,
        r.notes@,
        joined(tags_from_json(r.tags_json@), seq![';']),
        if r.reviewed != 0 { "true"@ } else { "false"@ },
    ]
}

pub open spec fn records_of(v: Seq<Vec<String>>) -> Seq<Seq<Seq<char>>> {
    v.map_values(|r: Vec<String>| strings_of(r))
}

/// The bytes `csv::Writer` (default settings) writes for the records.
pub uninterp spec fn csv_written(records: Seq<Seq<Seq<char>>>) -> Seq<u8>;

/// A CSV writer with default settings over a byte buffer that grows as
/// records are written.
#[verifier::external_body]
pub struct CsvBuffer {
    writer: csv::Writer<Vec<u8>>,
}

/// The records written so far to a CSV buffer, in order.
pub uninterp spec fn csv_buffer_records(w: CsvBuffer) -> Seq<Seq<Seq<char>>>;

/// `csv::Writer::from_writer(vec![])`: a writer with default settings over
/// an empty buffer, nothing written yet.
#[verifier::external_body]
fn csv_buffer() -> (w: CsvBuffer)
    ensures
        csv_buffer_records(w) == Seq::<Seq<Seq<char>>>::empty(),
{
    CsvBuffer { writer: csv::Writer::from_writer(vec![]) }
}

/// `Writer::write_record` on a writer with default settings (not
/// flexible). Writing into a `Vec<u8>` never fails, so the one error is the
/// crate's `UnequalLengths`: a record whose field count differs from the
/// first record written. On success the record is written after the
/// others and the writer is handed back; on error it is dropped, with its
/// message reported.
#[verifier::external_body]
fn csv_write_record(w: CsvBuffer, record: &Vec<String>) -> (r: Result<CsvBuffer, String>)
    ensures
        r is Ok <==> (csv_buffer_records(w).len() == 0 || csv_buffer_records(w)[0].len()
            == strings_of(*record).len()),
        r matches Ok(w2) ==> csv_buffer_records(w2) == csv_buffer_records(w).push(
            strings_of(*record),
        ),
{
    let mut w = w;
    match w.writer.write_record(record) {
        Ok(()) => Ok(w),
        Err(e) => Err(e.to_string()),
    }
}

/// `Writer::into_inner`: flushes into the `Vec<u8>` (which never fails)
/// and hands back the buffer, holding what `csv::Writer` writes for the
/// records written.
#[verifier::external_body]
fn csv_buffer_bytes(w: CsvBuffer) -> (r: Result<Vec<u8>, String>)
    ensures
        r is Ok,
        r matches Ok(b) ==> b@ == csv_written(csv_buffer_records(w)),
{
    w.writer.into_inner().map_err(|e| e.to_string())
}

fn header_record() -> (r: Vec<String>)
    ensures
        strings_of(r) == export_header(),
{
    let mut r: Vec<String> = Vec::new();
    r.push(String::from_str("date"));
    r.push(String::from_str("account"));
    r.push(String::from_str("description"));
    r.push(String::from_str("amount"));
    r.push(String::from_str("category"));
    r.push(String::from_str("notes"));
    r.push(String::from_str("tags"));
    r.push(String::from_str("reviewed"));
    assert(strings_of(r) =~= export_header());
    r
}

fn export_record(row: &ExportRow) -> (r: Vec<String>)
    ensures
        strings_of(r) == export_fields(*row),
{
    let tags = tags_of(row.tags_json.as_str());
    let mut r: Vec<String> = Vec::new();
    r.push(String::from_str(row.date.as_str()));
    r.push(String::from_str(row.account.as_str()));
    r.push(String::from_str(row.description.as_str()));
    r.push(amount_text(row.display_amount_cents));
    r.push(String::from_str(row.category.as_str()));
    r.push(String::from_str(row.notes.as_str()));
    r.push(join_strings(&tags, ";"));
    proof {
        reveal_strlit(";");
        assert(";"@ =~= seq![';']);
    }
    r.push(if row.reviewed != 0 { String::from_str("true") } else { String::from_str("false") });
    assert(strings_of(r) =~= export_fields(*row));
    r
}

/// The records of the export: the header, then one per row in order.
pub open spec fn export_records(rows: Seq<ExportRow>) -> Seq<Seq<Seq<char>>> {
    seq![export_header()] + rows.map_values(|r: ExportRow| export_fields(r))
}

/// The CSV bytes of the export of the given rows: the header and one
/// record per row, every record of eight fields, so writing never fails.
pub fn export_csv(rows: &Vec<ExportRow>) -> (r: Result<Vec<u8>, String>)
    ensures
        r is Ok,
        r matches Ok(b) ==> b@ == csv_written(export_records(rows@)),
{
    let w = csv_buffer();
    let header = header_record();
    let mut w = match csv_write_record(w, &header) {
        Ok(w2) => w2,
        Err(e) => return Err(e),
    };
    assert(csv_buffer_records(w) =~= export_records(rows@.take(0)));
    for i in 0..rows.len()
        invariant
            csv_buffer_records(w) == export_records(rows@.take(i as int)),
    {
        let record = export_record(&rows[i]);
        assert(csv_buffer_records(w)[0] == export_header());
        w = match csv_write_record(w, &record) {
            Ok(w2) => w2,
            Err(e) => return Err(e),
        };
        assert(export_records(rows@.take(i + 1)) =~= export_records(rows@.take(i as int)).push(
            export_fields(rows@[i as int]),
        ));
    }
    assert(rows@.take(rows@.len() as int) =~= rows@);
    csv_buffer_bytes(w)
}

} // verus!
