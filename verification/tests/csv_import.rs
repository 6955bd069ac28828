use manila::commands::import::csv_source_id;
use manila::import::csv::{
    col_index, extract_preview, parse_amount, parse_date, parse_row, parse_rows, AmountMode, ColumnMapping,
};

// --- parse_amount ---

#[test]
fn amount_dollar_with_commas() {
    assert_eq!(parse_amount("$1,234.56").unwrap(), 123456);
}

#[test]
fn amount_parenthetical_negative() {
    assert_eq!(parse_amount("(50.00)").unwrap(), -5000);
}

#[test]
fn amount_explicit_negative() {
    assert_eq!(parse_amount("-12.50").unwrap(), -1250);
}

#[test]
fn amount_plain_positive() {
    assert_eq!(parse_amount("12.50").unwrap(), 1250);
}

#[test]
fn amount_integer() {
    assert_eq!(parse_amount("1234").unwrap(), 123400);
}

#[test]
fn amount_one_cent() {
    assert_eq!(parse_amount("0.01").unwrap(), 1);
}

#[test]
fn amount_rounds_third_decimal_half_up() {
    assert_eq!(parse_amount("0.005").unwrap(), 1);
    assert_eq!(parse_amount("2.344").unwrap(), 234);
}

#[test]
fn amount_garbage_is_an_error_quoting_the_text() {
    assert_eq!(parse_amount("  abc ").unwrap_err(), "cannot parse amount: \"abc\"");
    assert!(parse_amount("").is_err());
    assert!(parse_amount("1.2.3").is_err());
}

// --- parse_date ---

#[test]
fn date_iso() {
    assert_eq!(parse_date("2026-08-22").unwrap(), "2026-08-22");
}

#[test]
fn date_us_padded() {
    assert_eq!(parse_date("08/22/2026").unwrap(), "2026-08-22");
}

#[test]
fn date_us_unpadded() {
    assert_eq!(parse_date("8/22/2026").unwrap(), "2026-08-22");
}

#[test]
fn date_us_short_year() {
    assert_eq!(parse_date("08/22/26").unwrap(), "2026-08-22");
}

#[test]
fn date_trims_and_rejects_unknown_formats() {
    assert_eq!(parse_date("  2026-01-05 ").unwrap(), "2026-01-05");
    assert_eq!(parse_date("22.08.2026").unwrap_err(), "unrecognized date format: \"22.08.2026\"");
    assert!(parse_date("2026-02-30").is_err());
}

// --- preview ---

#[test]
fn preview_reads_headers_and_at_most_five_rows() {
    let content = "Date,Description,Amount\n\
        2026-01-01,A,1.00\n2026-01-02,B,2.00\n2026-01-03,C,3.00\n\
        2026-01-04,D,4.00\n2026-01-05,E,5.00\n2026-01-06,F,6.00\n";
    let p = extract_preview(content).unwrap();
    assert_eq!(p.headers, vec!["Date", "Description", "Amount"]);
    assert_eq!(p.sample_rows.len(), 5);
    assert_eq!(p.sample_rows[0], vec!["2026-01-01", "A", "1.00"]);
    assert_eq!(p.sample_rows[4], vec!["2026-01-05", "E", "5.00"]);
}

#[test]
fn preview_reports_a_ragged_row_as_read_error() {
    let content = "a,b\n1,2\n3\n";
    let e = extract_preview(content).unwrap_err();
    assert!(e.starts_with("CSV read error: "), "{e}");
}

// --- col_index ---

#[test]
fn col_index_finds_first_match_or_names_the_column() {
    let headers = vec!["Date".to_string(), "Amount".to_string(), "Date".to_string()];
    assert_eq!(col_index(&headers, "Date").unwrap(), 0);
    assert_eq!(col_index(&headers, "Amount").unwrap(), 1);
    assert_eq!(col_index(&headers, "Memo").unwrap_err(), "column \"Memo\" not found in CSV headers");
}

// --- parse_row ---

fn row(cells: &[&str]) -> Vec<String> {
    cells.iter().map(|c| c.to_string()).collect()
}

#[test]
fn row_single_amount_with_flip() {
    let r = row(&["2026-03-01", "  Coffee ", "4.50"]);
    let p = parse_row(&r, 0, 1, &AmountMode::Single { idx: 2 }, true, "{}").unwrap();
    assert_eq!(p.date, "2026-03-01");
    assert_eq!(p.amount_cents, -450);
    assert_eq!(p.description, "Coffee");
    assert_eq!(p.raw_json, "{}");
}

#[test]
fn row_errors_name_the_empty_cell() {
    let mode = AmountMode::Single { idx: 2 };
    assert_eq!(parse_row(&row(&[" ", "x", "1"]), 0, 1, &mode, false, "{}").unwrap_err(), "empty date cell");
    assert_eq!(parse_row(&row(&["2026-03-01", "x", " "]), 0, 1, &mode, false, "{}").unwrap_err(), "empty amount cell");
    assert_eq!(parse_row(&row(&["2026-03-01", "x"]), 0, 1, &mode, false, "{}").unwrap_err(), "empty amount cell");
    let split = AmountMode::Split { debit_idx: 2, credit_idx: 3 };
    assert_eq!(
        parse_row(&row(&["2026-03-01", "x", "", ""]), 0, 1, &split, false, "{}").unwrap_err(),
        "both debit and credit cells are empty"
    );
}

#[test]
fn row_debit_credit_columns() {
    let split = AmountMode::Split { debit_idx: 2, credit_idx: 3 };
    let debit = parse_row(&row(&["2026-03-01", "x", "12.00", ""]), 0, 1, &split, false, "{}").unwrap();
    assert_eq!(debit.amount_cents, -1200);
    let credit = parse_row(&row(&["2026-03-01", "x", "", "7.25"]), 0, 1, &split, false, "{}").unwrap();
    assert_eq!(credit.amount_cents, 725);
    let both = parse_row(&row(&["2026-03-01", "x", "3.00", "9.00"]), 0, 1, &split, false, "{}").unwrap();
    assert_eq!(both.amount_cents, -300);
    let zero_debit = parse_row(&row(&["2026-03-01", "x", "0.00", "9.00"]), 0, 1, &split, false, "{}").unwrap();
    assert_eq!(zero_debit.amount_cents, 900);
}

// --- parse_rows ---

fn mapping(amount: Option<&str>, debit: Option<&str>, credit: Option<&str>) -> ColumnMapping {
    ColumnMapping {
        date_col: "Date".into(),
        description_col: "Description".into(),
        amount_col: amount.map(|s| s.to_string()),
        flip_sign: false,
        debit_col: debit.map(|s| s.to_string()),
        credit_col: credit.map(|s| s.to_string()),
    }
}

#[test]
fn rows_parse_each_record_and_keep_row_errors() {
    let content = "Date,Description,Amount\n2026-01-02,Coffee,-4.50\n,Nothing,1.00\n01/03/2026,Pay,100\n";
    let rows = parse_rows(content, &mapping(Some("Amount"), None, None)).unwrap();
    assert_eq!(rows.len(), 3);
    let r0 = rows[0].as_ref().unwrap();
    assert_eq!(r0.date, "2026-01-02");
    assert_eq!(r0.amount_cents, -450);
    assert_eq!(r0.description, "Coffee");
    assert_eq!(r0.raw_json, "{\"Amount\":\"-4.50\",\"Date\":\"2026-01-02\",\"Description\":\"Coffee\"}");
    assert_eq!(rows[1].as_ref().unwrap_err(), "empty date cell");
    let r2 = rows[2].as_ref().unwrap();
    assert_eq!(r2.date, "2026-01-03");
    assert_eq!(r2.amount_cents, 10000);
}

#[test]
fn rows_refuse_a_mapping_the_headers_lack() {
    let content = "Date,Description,Amount\n2026-01-02,Coffee,-4.50\n";
    assert_eq!(
        parse_rows(content, &mapping(Some("Value"), None, None)).unwrap_err(),
        "column \"Value\" not found in CSV headers"
    );
    assert_eq!(
        parse_rows(content, &mapping(None, None, Some("Amount"))).unwrap_err(),
        "debit_col required in debit/credit mode"
    );
    assert_eq!(
        parse_rows(content, &mapping(None, Some("Amount"), None)).unwrap_err(),
        "credit_col required in debit/credit mode"
    );
}

#[test]
fn source_id_joins_the_fields() {
    assert_eq!(csv_source_id("acct", "2026-01-02", -450, "Coffee"), "csv|acct|2026-01-02|-450|Coffee");
}

#[test]
fn amount_sign_forms_agree() {
    for s in ["12.5", "0.01", "1234", "7.25"] {
        let c = parse_amount(s).unwrap();
        assert!(c >= 0);
        assert_eq!(parse_amount(&format!("-{s}")).unwrap(), -c);
        assert_eq!(parse_amount(&format!("({s})")).unwrap(), -c);
        assert_eq!(parse_amount(&format!("${s}")).unwrap(), c);
    }
}

#[test]
fn amount_rounds_exactly_in_decimal() {
    assert_eq!(parse_amount("1.005").unwrap(), 101);
    assert_eq!(parse_amount("1.004").unwrap(), 100);
    assert_eq!(parse_amount("-2.675").unwrap(), -268);
}
