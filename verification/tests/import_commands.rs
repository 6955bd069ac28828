use manila::commands::import::{
    build_pending_import, csv_candidates_of, ofx_candidates_of, parse_csv_preview, plan_commit, ImportDecision,
};
use manila::import::csv::{parse_rows, ColumnMapping};
use manila::import::dedup::{classify_candidates, Candidate, ExistingRecord};
use manila::import::ofx::parse_ofx;

const THREE_ROW_CSV: &str = "Date,Description,Amount\n\
    2026-01-15,Grocery Store,-45.67\n\
    2026-01-16,Gas Station,-32.10\n\
    2026-01-17,Paycheck,2000.00\n";

const TWO_TXN_OFX: &str = "OFXHEADER:100\nDATA:OFXSGML\n\n\
    <OFX><BANKMSGSRSV1><STMTTRNRS><STMTRS><BANKTRANLIST>\
    <STMTTRN>\
    <DTPOSTED>20260115120000\
    <TRNAMT>-45.67\
    <FITID>fitid-001\
    <NAME>Grocery Store\
    </STMTTRN>\
    <STMTTRN>\
    <DTPOSTED>20260120000000\
    <TRNAMT>2000.00\
    <FITID>fitid-002\
    <NAME>Paycheck\
    </STMTTRN>\
    </BANKTRANLIST></STMTRS></STMTTRNRS></BANKMSGSRSV1></OFX>";

fn default_mapping() -> ColumnMapping {
    ColumnMapping {
        date_col: "Date".into(),
        description_col: "Description".into(),
        amount_col: Some("Amount".into()),
        flip_sign: false,
        debit_col: None,
        credit_col: None,
    }
}

/// The stored records an import of these candidates leaves behind.
fn stored_from(account_id: &str, inserted: &[Candidate]) -> Vec<ExistingRecord> {
    inserted
        .iter()
        .enumerate()
        .map(|(i, c)| ExistingRecord {
            raw_record_id: format!("rr-{i}"),
            account_id: account_id.to_string(),
            source_id: c.source_id.clone(),
            date: c.date.clone(),
            amount_cents: c.amount_cents,
            description: c.description.clone(),
        })
        .collect()
}

#[test]
fn import_three_rows_creates_expected_db_rows() {
    let account_id = "acct-1";
    let rows = parse_rows(THREE_ROW_CSV, &default_mapping()).unwrap();
    let (candidates, errors) = csv_candidates_of(&rows, account_id);
    let classified = classify_candidates(&vec![], account_id, candidates);
    let plan = plan_commit(classified, &[], errors);
    assert_eq!(plan.to_insert.len(), 3);
    assert_eq!(plan.skipped_count, 0);
    assert!(plan.errors.is_empty());
    assert_eq!(plan.to_insert[0].source_id, format!("csv|{}|2026-01-15|-4567|Grocery Store", account_id));
    assert_eq!(plan.to_insert[1].source_id, format!("csv|{}|2026-01-16|-3210|Gas Station", account_id));
    assert_eq!(plan.to_insert[2].source_id, format!("csv|{}|2026-01-17|200000|Paycheck", account_id));
}

#[test]
fn import_ofx_two_rows_creates_expected_db_rows() {
    let account_id = "acct-2";
    let rows = parse_ofx(TWO_TXN_OFX, account_id).unwrap();
    let (candidates, errors) = ofx_candidates_of(&rows, account_id);
    let classified = classify_candidates(&vec![], account_id, candidates);
    let plan = plan_commit(classified, &[], errors);
    assert_eq!(plan.to_insert.len(), 2);
    assert_eq!(plan.skipped_count, 0);
    assert!(plan.errors.is_empty());
    assert_eq!(plan.to_insert[0].source_id, format!("ofx|{}|fitid-001", account_id));
    assert_eq!(plan.to_insert[1].source_id, format!("ofx|{}|fitid-002", account_id));
}

#[test]
fn import_ofx_empty_file_returns_zero_imported() {
    let rows = parse_ofx("OFXHEADER:100\n<OFX></OFX>", "acct").unwrap();
    let (candidates, errors) = ofx_candidates_of(&rows, "acct");
    let plan = plan_commit(classify_candidates(&vec![], "acct", candidates), &[], errors);
    assert_eq!(plan.to_insert.len(), 0);
    assert_eq!(plan.skipped_count, 0);
    assert!(plan.errors.is_empty());
}

#[test]
fn reimport_same_csv_skips_all() {
    let account_id = "acct-3";
    let rows = parse_rows(THREE_ROW_CSV, &default_mapping()).unwrap();
    let (candidates, errors) = csv_candidates_of(&rows, account_id);
    let first = plan_commit(classify_candidates(&vec![], account_id, candidates), &[], errors);
    assert_eq!(first.to_insert.len(), 3);
    let stored = stored_from(account_id, &first.to_insert);

    let rows = parse_rows(THREE_ROW_CSV, &default_mapping()).unwrap();
    let (candidates, errors) = csv_candidates_of(&rows, account_id);
    let second = plan_commit(classify_candidates(&stored, account_id, candidates), &[], errors);
    assert_eq!(second.to_insert.len(), 0);
    assert_eq!(second.skipped_count, 3);
}

#[test]
fn uncertain_decision_accept_as_dup_skips_record() {
    let account_id = "acct-4";
    let stored = vec![ExistingRecord {
        raw_record_id: "rr-1".into(),
        account_id: account_id.into(),
        source_id: "ofx|acct-4|fitid-9".into(),
        date: "2026-01-15".into(),
        amount_cents: -4567,
        description: "Grocery Store".into(),
    }];
    let uncertain_csv = "Date,Description,Amount\n2026-01-15,Grocery Store,-45.67\n";
    let rows = parse_rows(uncertain_csv, &default_mapping()).unwrap();
    let (candidates, errors) = csv_candidates_of(&rows, account_id);
    let source_id = candidates[0].source_id.clone();

    let preview = build_pending_import(classify_candidates(&stored, account_id, candidates), errors);
    assert_eq!(preview.exact_duplicate_count, 0);
    assert_eq!(preview.new_count, 0);
    assert_eq!(preview.uncertain.len(), 1);
    assert_eq!(preview.uncertain[0].candidate_source_id, source_id);
    assert_eq!(preview.uncertain[0].existing_raw_record_id, "rr-1");
    assert_eq!(preview.uncertain[0].existing_source_id, "ofx|acct-4|fitid-9");

    let rows = parse_rows(uncertain_csv, &default_mapping()).unwrap();
    let (candidates, errors) = csv_candidates_of(&rows, account_id);
    let decisions = vec![
        ImportDecision { candidate_source_id: source_id.clone(), accept_as_duplicate: false },
        ImportDecision { candidate_source_id: source_id.clone(), accept_as_duplicate: true },
    ];
    let plan = plan_commit(classify_candidates(&stored, account_id, candidates), &decisions, errors);
    assert_eq!(plan.to_insert.len(), 0);
    assert_eq!(plan.skipped_count, 1);

    let rows = parse_rows(uncertain_csv, &default_mapping()).unwrap();
    let (candidates, errors) = csv_candidates_of(&rows, account_id);
    let plan = plan_commit(classify_candidates(&stored, account_id, candidates), &[], errors);
    assert_eq!(plan.to_insert.len(), 1, "without a decision an uncertain row is inserted");
}

#[test]
fn preview_csv_all_new_when_no_existing() {
    let rows = parse_rows(THREE_ROW_CSV, &default_mapping()).unwrap();
    let (candidates, errors) = csv_candidates_of(&rows, "acct");
    let preview = build_pending_import(classify_candidates(&vec![], "acct", candidates), errors);
    assert_eq!(preview.new_count, 3);
    assert_eq!(preview.exact_duplicate_count, 0);
    assert!(preview.uncertain.is_empty());
    assert!(preview.errors.is_empty());
}

#[test]
fn preview_ofx_all_new_when_no_existing() {
    let rows = parse_ofx(TWO_TXN_OFX, "acct").unwrap();
    let (candidates, errors) = ofx_candidates_of(&rows, "acct");
    let preview = build_pending_import(classify_candidates(&vec![], "acct", candidates), errors);
    assert_eq!(preview.new_count, 2);
    assert_eq!(preview.exact_duplicate_count, 0);
}

#[test]
fn preview_csv_counts_exact_dups_after_import() {
    let account_id = "acct-5";
    let rows = parse_rows(THREE_ROW_CSV, &default_mapping()).unwrap();
    let (candidates, errors) = csv_candidates_of(&rows, account_id);
    let first = plan_commit(classify_candidates(&vec![], account_id, candidates), &[], errors);
    let stored = stored_from(account_id, &first.to_insert);
    let rows = parse_rows(THREE_ROW_CSV, &default_mapping()).unwrap();
    let (candidates, errors) = csv_candidates_of(&rows, account_id);
    let preview = build_pending_import(classify_candidates(&stored, account_id, candidates), errors);
    assert_eq!(preview.new_count, 0);
    assert_eq!(preview.exact_duplicate_count, 3);
}

#[test]
fn preview_ofx_counts_exact_dups_after_import() {
    let account_id = "acct-6";
    let rows = parse_ofx(TWO_TXN_OFX, account_id).unwrap();
    let (candidates, errors) = ofx_candidates_of(&rows, account_id);
    let first = plan_commit(classify_candidates(&vec![], account_id, candidates), &[], errors);
    let stored = stored_from(account_id, &first.to_insert);
    let rows = parse_ofx(TWO_TXN_OFX, account_id).unwrap();
    let (candidates, errors) = ofx_candidates_of(&rows, account_id);
    let preview = build_pending_import(classify_candidates(&stored, account_id, candidates), errors);
    assert_eq!(preview.new_count, 0);
    assert_eq!(preview.exact_duplicate_count, 2);
}

#[test]
fn row_errors_are_kept_and_counted_as_skipped() {
    let content = "Date,Description,Amount\n2026-01-15,A,1.00\n,B,2.00\n2026-01-17,C,x\n";
    let rows = parse_rows(content, &default_mapping()).unwrap();
    let (candidates, errors) = csv_candidates_of(&rows, "acct");
    assert_eq!(candidates.len(), 1);
    assert_eq!(errors, vec!["empty date cell".to_string(), "cannot parse amount: \"x\"".to_string()]);
    let plan = plan_commit(classify_candidates(&vec![], "acct", candidates), &[], errors);
    assert_eq!(plan.to_insert.len(), 1);
    assert_eq!(plan.skipped_count, 2);
    assert_eq!(plan.errors.len(), 2);
}

#[test]
fn parse_csv_preview_gives_headers_and_rows() {
    let p = parse_csv_preview(THREE_ROW_CSV.to_string()).unwrap();
    assert_eq!(p.headers, vec!["Date", "Description", "Amount"]);
    assert_eq!(p.sample_rows.len(), 3);
    assert_eq!(p.sample_rows[2], vec!["2026-01-17", "Paycheck", "2000.00"]);
}

#[test]
fn parse_csv_preview_reports_a_ragged_row() {
    let e = parse_csv_preview("a,b\n1,2\n3\n".to_string()).unwrap_err();
    assert!(e.starts_with("CSV read error: "), "{e}");
}
