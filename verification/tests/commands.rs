use chrono::Datelike;
use manila::commands::accounts::{account_name, account_update_outcome};
use manila::commands::budget::{AllocationEvent, AllocationKind, SplitActivity};
use manila::commands::categories::{
    category_name, found_or_missing, hidden_flag, income_category_name, split_plan, SplitAction,
};
use manila::commands::goals::{goal_balance, goals_with_progress, validate_goal, Goal};
use manila::commands::groups::{group_deletable, group_name};
use manila::commands::budget::{date_in_month, BudgetCategory};
use manila::commands::reports::{category_spend, month_spend_totals, monthly_trend, trend_months, MonthSplit};
use manila::commands::search::{sanitize_fts_query, search_query};
use manila::commands::transactions::{
    amount_text, export_csv, meta_values, tags_of, transaction_row, ExportRow, StoredTransactionRow, UpsertMetaArgs,
};

// --- names ---

#[test]
fn accounts_blank_name_returns_err_on_create() {
    assert_eq!(account_name("   ").unwrap_err(), "account name must not be blank");
    assert_eq!(account_name("  Checking ").unwrap(), "Checking");
}

#[test]
fn blank_name_returns_err_on_update() {
    assert!(account_name("\t\n").is_err());
    assert_eq!(account_update_outcome(0, "a-1").unwrap_err(), "no account found with id a-1");
    assert!(account_update_outcome(1, "a-1").is_ok());
}

#[test]
fn categories_blank_name_returns_err_on_create() {
    let result = category_name("  ");
    assert!(result.is_err());
    assert_eq!(result.unwrap_err(), "Category name cannot be blank");
}

#[test]
fn create_income_category_rejects_blank() {
    assert_eq!(income_category_name(" ").unwrap_err(), "Income category name cannot be blank");
    assert_eq!(income_category_name(" Bonus ").unwrap(), "Bonus");
}

#[test]
fn set_income_category_hidden_errors_on_unknown_id() {
    assert_eq!(found_or_missing(0, "Income category", "x").unwrap_err(), "Income category x not found");
    assert!(found_or_missing(1, "Income category", "x").is_ok());
    assert_eq!((hidden_flag(true), hidden_flag(false)), (1, 0));
}

#[test]
fn upsert_split_rejects_invalid_target_type() {
    assert_eq!(
        split_plan("bogus", "some-id").unwrap_err(),
        "target_type must be 'envelope' or 'income', got 'bogus'"
    );
}

#[test]
fn upsert_split_actions() {
    assert_eq!(split_plan("bogus", ""), Ok(SplitAction::Clear));
    assert_eq!(split_plan("envelope", "c-1"), Ok(SplitAction::Assign { learn_rule: true }));
    assert_eq!(split_plan("income", "i-1"), Ok(SplitAction::Assign { learn_rule: false }));
}

#[test]
fn groups_names_and_deletion() {
    assert_eq!(group_name("").unwrap_err(), "Group name cannot be blank");
    assert_eq!(group_name(" Home ").unwrap(), "Home");
    assert_eq!(
        group_deletable("g-1", 2).unwrap_err(),
        "Cannot delete group g-1: 2 categories are still assigned to it"
    );
    assert!(group_deletable("g-1", 0).is_ok());
}

// --- goals ---

fn goal(id: &str, name: &str, target: i64, cat: Option<&str>) -> Goal {
    Goal {
        id: id.into(),
        name: name.into(),
        target_amount_cents: target,
        category_id: cat.map(|c| c.to_string()),
        target_date: None,
        achieved_at: None,
        created_at: "2026-01-01T00:00:00Z".into(),
    }
}

#[test]
fn create_and_list_goal_no_category() {
    let goals = goals_with_progress(vec![goal("g1", "Vacation", 500_000, None)], &vec![], &vec![]).unwrap();
    assert_eq!(goals.len(), 1);
    assert_eq!(goals[0].id, "g1");
    assert_eq!(goals[0].name, "Vacation");
    assert_eq!(goals[0].target_amount_cents, 500_000);
    assert!(goals[0].category_id.is_none());
    assert_eq!(goals[0].current_balance_cents, 0);
}

#[test]
fn goal_balance_reflects_sinking_activity() {
    let evs = vec![
        AllocationEvent {
            category_id: "sink".into(),
            month: "2026-01".into(),
            amount_cents: 80_000,
            kind: AllocationKind::Allocate,
            counterpart_category_id: None,
        },
        AllocationEvent {
            category_id: "sink".into(),
            month: "2026-02".into(),
            amount_cents: -5_000,
            kind: AllocationKind::Carry,
            counterpart_category_id: None,
        },
    ];
    let splits = vec![SplitActivity {
        target_type: "envelope".into(),
        target_id: "sink".into(),
        amount_cents: -20_000,
        date: "2026-01-15".into(),
    }];
    let goals = goals_with_progress(vec![goal("g1", "Car Maintenance", 100_000, Some("sink"))], &evs, &splits).unwrap();
    assert_eq!(goals[0].current_balance_cents, 80000 - (-20000_i64));
    assert_eq!(goal_balance(&evs, &splits, "sink").unwrap(), 100_000);
}

#[test]
fn goal_validation() {
    assert_eq!(validate_goal("  ", 10).unwrap_err(), "Goal name cannot be blank");
    assert_eq!(validate_goal("Trip", 0).unwrap_err(), "Target amount must be greater than zero");
    assert_eq!(validate_goal(" Trip ", 10).unwrap(), "Trip");
}

// --- search ---

#[test]
fn empty_query_returns_empty() {
    assert!(search_query("").is_none());
}

#[test]
fn quotes_are_doubled_inside_the_phrase() {
    assert_eq!(sanitize_fts_query("coffee"), "\"coffee\"");
    assert_eq!(sanitize_fts_query("say \"hi\" OR x"), "\"say \"\"hi\"\" OR x\"");
    assert_eq!(search_query("a").unwrap(), "\"a\"");
}

// --- transactions ---

fn stored(tags_json: &str, reviewed: i64) -> StoredTransactionRow {
    StoredTransactionRow {
        id: "t1".into(),
        account_id: "a1".into(),
        account_name: "Checking".into(),
        date: "2026-01-02".into(),
        amount_cents: -450,
        description: "Coffee".into(),
        notes: "".into(),
        tags_json: tags_json.into(),
        reviewed,
        category_type: Some("envelope".into()),
        category_id: Some("c1".into()),
        category_name: Some("Dining Out".into()),
    }
}

#[test]
fn list_returns_row_with_default_empty_meta() {
    let t = transaction_row(stored("[]", 0));
    assert!(t.tags.is_empty());
    assert!(!t.reviewed);
    assert_eq!(t.description, "Coffee");
    assert_eq!(t.category_name.as_deref(), Some("Dining Out"));
}

#[test]
fn list_returns_updated_meta() {
    let t = transaction_row(stored("[\"work\",\"travel\"]", 1));
    assert_eq!(t.tags, vec!["work".to_string(), "travel".to_string()]);
    assert!(t.reviewed);
    assert!(tags_of("not json").is_empty());
}

#[test]
fn upsert_creates_meta_row() {
    let args = UpsertMetaArgs {
        transaction_id: "t1".into(),
        notes: "n".into(),
        tags: vec!["a".into(), "b\"c".into()],
        reviewed: true,
    };
    let (tags_json, reviewed) = meta_values(&args);
    assert_eq!(tags_json, "[\"a\",\"b\\\"c\"]");
    assert_eq!(reviewed, 1);
}

#[test]
fn amounts_are_written_as_dollars() {
    assert_eq!(amount_text(-450), "-4.50");
    assert_eq!(amount_text(0), "0.00");
    assert_eq!(amount_text(-5), "-0.05");
    assert_eq!(amount_text(123456), "1234.56");
}

#[test]
fn export_csv_produces_correct_rows() {
    let rows = vec![ExportRow {
        account: "Checking".into(),
        date: "2026-01-02".into(),
        description: "Coffee, large".into(),
        notes: "".into(),
        tags_json: "[\"a\",\"b\"]".into(),
        reviewed: 1,
        display_amount_cents: -450,
        category: "Dining Out".into(),
    }];
    let bytes = export_csv(&rows).unwrap();
    let text = String::from_utf8(bytes).unwrap();
    assert_eq!(
        text,
        "date,account,description,amount,category,notes,tags,reviewed\n\
         2026-01-02,Checking,\"Coffee, large\",-4.50,Dining Out,,a;b,true\n"
    );
}

// --- reports ---

#[test]
fn monthly_trend_returns_correct_count() {
    assert_eq!(trend_months(2026, 3, 6).len(), 6);
}

#[test]
fn monthly_trend_zero_months_returns_empty() {
    assert!(trend_months(2026, 3, 0).is_empty());
}

#[test]
fn monthly_trend_ordered_newest_first() {
    assert_eq!(trend_months(2026, 2, 3), vec!["2026-02", "2026-01", "2025-12"]);
}

#[test]
fn monthly_trend_empty_months_have_zero_spend() {
    let months = trend_months(2026, 2, 3);
    let spend = vec![("2026-01".to_string(), 1_500_i64)];
    let trend = monthly_trend(months, &spend);
    assert_eq!(trend[0].total_spent_cents, 0);
    assert_eq!(trend[1].month, "2026-01");
    assert_eq!(trend[1].total_spent_cents, 1_500);
    assert_eq!(trend[2].total_spent_cents, 0);
}

fn groceries() -> Vec<BudgetCategory> {
    vec![
        BudgetCategory {
            category_id: "cat-g".into(),
            category_name: "Groceries".into(),
            kind: "flow".into(),
            group_id: None,
            group_name: None,
            group_sort_order: None,
        },
        BudgetCategory {
            category_id: "cat-s".into(),
            category_name: "Car".into(),
            kind: "sinking".into(),
            group_id: None,
            group_name: None,
            group_sort_order: None,
        },
    ]
}

fn envelope(target: &str, amount: i64, date: &str) -> SplitActivity {
    SplitActivity { target_type: "envelope".into(), target_id: target.into(), amount_cents: amount, date: date.into() }
}

#[test]
fn category_spend_sums_correctly_for_month() {
    let acts = vec![envelope("cat-g", -2000, "2026-01-10"), envelope("cat-g", -3000, "2026-01-20")];
    let result = category_spend("2026-01", &groceries(), &acts).unwrap();
    assert_eq!(result.len(), 1);
    assert_eq!(result[0].category_id, "cat-g");
    assert_eq!(result[0].spent_cents, 5000);
    assert_eq!(result[0].kind, "flow");
}

#[test]
fn category_spend_excludes_other_months() {
    let acts = vec![envelope("cat-g", -1000, "2026-01-15"), envelope("cat-g", -2000, "2026-02-05")];
    let jan = category_spend("2026-01", &groceries(), &acts).unwrap();
    assert_eq!(jan[0].spent_cents, 1000);
    let feb = category_spend("2026-02", &groceries(), &acts).unwrap();
    assert_eq!(feb[0].spent_cents, 2000);
}

#[test]
fn category_spend_excludes_refunds() {
    let acts = vec![envelope("cat-g", -5000, "2026-01-10"), envelope("cat-g", 1000, "2026-01-15")];
    let result = category_spend("2026-01", &groceries(), &acts).unwrap();
    assert_eq!(result.len(), 1);
    assert_eq!(result[0].spent_cents, 5000);
}

#[test]
fn category_spend_largest_first_and_income_ignored() {
    let mut acts = vec![envelope("cat-g", -100, "2026-01-10"), envelope("cat-s", -900, "2026-01-11")];
    acts.push(SplitActivity {
        target_type: "income".into(),
        target_id: "cat-g".into(),
        amount_cents: -5000,
        date: "2026-01-12".into(),
    });
    let result = category_spend("2026-01", &groceries(), &acts).unwrap();
    assert_eq!(result.len(), 2);
    assert_eq!((result[0].category_id.as_str(), result[0].spent_cents), ("cat-s", 900));
    assert_eq!((result[1].category_id.as_str(), result[1].spent_cents), ("cat-g", 100));
}

#[test]
fn category_spend_overflow_is_an_error() {
    let acts = vec![envelope("cat-g", i64::MIN, "2026-01-10")];
    assert_eq!(category_spend("2026-01", &groceries(), &acts).unwrap_err(), "integer overflow");
}

fn month_split(target: &str, amount: i64, month: Option<&str>) -> MonthSplit {
    MonthSplit { target_type: target.into(), amount_cents: amount, month: month.map(|m| m.to_string()) }
}

#[test]
fn monthly_trend_includes_spend_in_range() {
    let now = chrono::Utc::now();
    let this_month = format!("{:04}-{:02}", now.year(), now.month());
    let splits = vec![month_split("envelope", -4000, Some(&this_month))];
    let months = trend_months(now.year(), now.month(), 3);
    let spend = month_spend_totals(&months, &splits).unwrap();
    let result = monthly_trend(months, &spend);
    let current = &result[0];
    assert_eq!(current.month, format!("{:04}-{:02}", now.year(), now.month()));
    assert_eq!(current.total_spent_cents, 4000);
}

#[test]
fn month_spend_totals_counts_envelope_outflows_of_each_month() {
    let months = vec!["2026-02".to_string(), "2026-01".to_string()];
    let splits = vec![
        month_split("envelope", -100, Some("2026-01")),
        month_split("envelope", -250, Some("2026-01")),
        month_split("envelope", 70, Some("2026-01")),
        month_split("income", -40, Some("2026-01")),
        month_split("envelope", -5, Some("2025-12")),
        month_split("envelope", -9, None),
    ];
    let spend = month_spend_totals(&months, &splits).unwrap();
    assert_eq!(spend, vec![("2026-02".to_string(), 0), ("2026-01".to_string(), 350)]);
}

#[test]
fn month_spend_totals_overflow_is_an_error() {
    let months = vec!["2026-01".to_string()];
    let splits = vec![month_split("envelope", i64::MIN, Some("2026-01"))];
    assert_eq!(month_spend_totals(&months, &splits).unwrap_err(), "integer overflow");
}

#[test]
fn dates_fall_in_a_month_as_sql_like_decides() {
    assert!(date_in_month("2026-01-15", "2026-01"));
    assert!(!date_in_month("2026-02-01", "2026-01"));
    assert!(date_in_month("2026-01-", "2026-01"));
    assert!(!date_in_month("2026-01", "2026-01"));
    assert!(date_in_month("2026-01-15", "2026-0_"));
    assert!(date_in_month("2026-11-15", "2026%"));
    assert!(date_in_month("abc-1", "ABC"));
    assert!(!date_in_month("\u{e9}-1", "\u{c9}"));
}
