use manila::import::dedup::{classify_candidates, Candidate, DedupClass, ExistingRecord};

fn make_candidate(source_id: &str, date: &str, amount_cents: i64, description: &str) -> Candidate {
    Candidate {
        source_id: source_id.to_string(),
        date: date.to_string(),
        amount_cents,
        description: description.to_string(),
        raw_json: "{}".to_string(),
    }
}

fn stored(id: &str, account_id: &str, source_id: &str, date: &str, amount_cents: i64, description: &str) -> ExistingRecord {
    ExistingRecord {
        raw_record_id: id.to_string(),
        account_id: account_id.to_string(),
        source_id: source_id.to_string(),
        date: date.to_string(),
        amount_cents,
        description: description.to_string(),
    }
}

#[test]
fn empty_candidates_returns_empty() {
    let result = classify_candidates(&vec![], "acct-1", vec![]);
    assert!(result.is_empty());
}

#[test]
fn new_record_when_no_existing() {
    let candidates = vec![make_candidate("src-1", "2026-01-15", -4567, "Grocery Store")];
    let result = classify_candidates(&vec![], "acct-1", candidates);
    assert_eq!(result.len(), 1);
    assert!(matches!(result[0].class, DedupClass::New));
}

#[test]
fn exact_dup_detected_by_source_id() {
    let existing = vec![stored("rr-1", "acct", "src-abc", "2026-01-15", -4567, "Grocery Store")];
    let candidates = vec![make_candidate("src-abc", "2026-01-15", -4567, "Grocery Store")];
    let result = classify_candidates(&existing, "acct", candidates);
    assert!(matches!(result[0].class, DedupClass::Exact));
}

#[test]
fn uncertain_detected_same_fields_different_source_id() {
    let existing = vec![stored("rr-1", "acct", "src-original", "2026-01-15", -4567, "Grocery Store")];
    let candidates = vec![make_candidate("src-different", "2026-01-15", -4567, "Grocery Store")];
    let result = classify_candidates(&existing, "acct", candidates);
    match &result[0].class {
        DedupClass::Uncertain { existing_source_id, existing_raw_record_id } => {
            assert_eq!(existing_source_id, "src-original");
            assert_eq!(existing_raw_record_id, "rr-1");
        }
        _ => panic!("expected Uncertain"),
    }
}

#[test]
fn exact_takes_priority_over_uncertain() {
    let existing = vec![
        stored("rr-0", "acct", "src-other", "2026-01-15", -4567, "Grocery Store"),
        stored("rr-1", "acct", "src-abc", "2026-01-15", -4567, "Grocery Store"),
    ];
    let candidates = vec![make_candidate("src-abc", "2026-01-15", -4567, "Grocery Store")];
    let result = classify_candidates(&existing, "acct", candidates);
    assert!(matches!(result[0].class, DedupClass::Exact));
}

#[test]
fn same_fields_different_account_is_new() {
    let existing = vec![stored("rr-1", "account_a", "src-a", "2026-01-15", -4567, "Grocery Store")];
    let candidates = vec![make_candidate("src-b", "2026-01-15", -4567, "Grocery Store")];
    let result = classify_candidates(&existing, "account_b", candidates);
    assert!(matches!(result[0].class, DedupClass::New));
}

#[test]
fn mixed_batch_classifies_correctly() {
    let existing = vec![
        stored("rr-1", "acct", "src-exact", "2026-01-10", -1000, "Coffee"),
        stored("rr-2", "acct", "src-uncertain-orig", "2026-01-11", -2000, "Gas"),
    ];
    let candidates = vec![
        make_candidate("src-exact", "2026-01-10", -1000, "Coffee"),
        make_candidate("src-uncertain-new", "2026-01-11", -2000, "Gas"),
        make_candidate("src-brand-new", "2026-01-12", -3000, "Restaurant"),
    ];
    let result = classify_candidates(&existing, "acct", candidates);
    assert!(matches!(result[0].class, DedupClass::Exact));
    assert!(matches!(result[1].class, DedupClass::Uncertain { .. }));
    assert!(matches!(result[2].class, DedupClass::New));
    assert_eq!(result[2].candidate.source_id, "src-brand-new");
}
