use manila::commands::budget::{
    budget_month_view, close_month_plan, days_in_month, days_remaining_in_month, flow_remaining_cents, home_view,
    next_month, reallocation_events, reallocation_log, set_allocation_event, AllocationEvent, AllocationKind,
    AllocationLogRow, BudgetCategory, BudgetCategoryRow, BudgetMonthView, IncomeCategory, SplitActivity,
};

struct Ledger {
    cats: Vec<BudgetCategory>,
    income: Vec<IncomeCategory>,
    evs: Vec<AllocationEvent>,
    acts: Vec<SplitActivity>,
}

fn cat(id: &str, name: &str, kind: &str, group: Option<(&str, &str, i64)>) -> BudgetCategory {
    BudgetCategory {
        category_id: id.into(),
        category_name: name.into(),
        kind: kind.into(),
        group_id: group.map(|g| g.0.to_string()),
        group_name: group.map(|g| g.1.to_string()),
        group_sort_order: group.map(|g| g.2),
    }
}

fn ledger() -> Ledger {
    Ledger {
        cats: vec![
            cat("flow-1", "Groceries", "flow", Some(("g-ess", "Essentials", 1))),
            cat("flow-2", "Dining Out", "flow", Some(("g-ess", "Essentials", 1))),
            cat("flow-3", "Gas", "flow", None),
            cat("sink-1", "Car Maintenance", "sinking", Some(("g-sav", "Savings", 2))),
        ],
        income: vec![IncomeCategory { id: "inc-1".into(), name: "Salary".into() }],
        evs: vec![],
        acts: vec![],
    }
}

impl Ledger {
    fn set_allocation(&mut self, cat: &str, month: &str, amount: i64) -> Result<(), String> {
        if let Some(ev) = set_allocation_event(&self.evs, cat, month, amount)? {
            self.evs.push(ev);
        }
        Ok(())
    }
    fn reallocate(&mut self, from: &str, to: &str, month: &str, amount: i64) -> Result<(), String> {
        let (a, b) = reallocation_events(from, to, month, amount)?;
        self.evs.push(a);
        self.evs.push(b);
        Ok(())
    }
    fn split(&mut self, target_type: &str, target: &str, amount: i64, date: &str) {
        self.acts.push(SplitActivity {
            target_type: target_type.into(),
            target_id: target.into(),
            amount_cents: amount,
            date: date.into(),
        });
    }
    fn close(&mut self, month: &str, already_closed: bool) -> Result<(), String> {
        let (_, carries) = close_month_plan(month, already_closed, &self.cats, &self.evs, &self.acts)?;
        self.evs.extend(carries);
        Ok(())
    }
    fn view(&self, month: &str) -> BudgetMonthView {
        budget_month_view(month, &self.cats, &self.income, &self.evs, &self.acts, false, vec![]).unwrap()
    }
    /// The event log newest first, each event with an id and a creation time.
    fn log_rows(&self) -> Vec<AllocationLogRow> {
        let mut rows: Vec<AllocationLogRow> = self
            .evs
            .iter()
            .enumerate()
            .map(|(i, e)| AllocationLogRow {
                id: format!("ev-{i}"),
                category_id: e.category_id.clone(),
                month: e.month.clone(),
                amount_cents: e.amount_cents,
                kind: e.kind,
                counterpart_category_id: e.counterpart_category_id.clone(),
                created_at: format!("2026-08-01T00:00:{i:02}Z"),
            })
            .collect();
        rows.reverse();
        rows
    }
    fn view_with_log(&self, month: &str) -> BudgetMonthView {
        let log = reallocation_log(month, &self.log_rows(), &self.cats).unwrap();
        budget_month_view(month, &self.cats, &self.income, &self.evs, &self.acts, false, log).unwrap()
    }
    fn count(&self, cat: &str, kind: AllocationKind) -> usize {
        self.evs.iter().filter(|e| e.category_id == cat && e.kind == kind).count()
    }
}

fn find_category<'a>(view: &'a BudgetMonthView, category_id: &str) -> &'a BudgetCategoryRow {
    view.flow_groups
        .iter()
        .flat_map(|g| g.categories.iter())
        .chain(view.flow_ungrouped.iter())
        .chain(view.sinking_groups.iter().flat_map(|g| g.categories.iter()))
        .chain(view.sinking_ungrouped.iter())
        .find(|r| r.category_id == category_id)
        .unwrap()
}

#[test]
fn days_remaining_counts_today() {
    // Aug has 31 days; last day = 31 -> remaining = 1
    assert_eq!(days_remaining_in_month("2026-08-31").unwrap(), 1);
}

#[test]
fn days_remaining_full_month() {
    // Aug 1 -> 31 days remaining
    assert_eq!(days_remaining_in_month("2026-08-01").unwrap(), 31);
}

#[test]
fn days_remaining_past_the_end_is_zero_and_bad_dates_are_refused() {
    assert_eq!(days_remaining_in_month("2026-08-32").unwrap(), 0);
    assert_eq!(days_remaining_in_month("2024-02-01").unwrap(), 29);
    assert!(days_remaining_in_month("2026-8").is_err());
}

#[test]
fn calendar_helpers() {
    assert_eq!(days_in_month(2024, 2), 29);
    assert_eq!(days_in_month(2023, 2), 28);
    assert_eq!(days_in_month(1900, 2), 28);
    assert_eq!(days_in_month(2000, 2), 29);
    assert_eq!(days_in_month(2026, 4), 30);
    assert_eq!(next_month("2026-12").unwrap(), "2027-01");
    assert_eq!(next_month("2026-08").unwrap(), "2026-09");
}

#[test]
fn set_allocation_inserts_event_on_first_set() {
    let mut l = ledger();
    l.set_allocation("flow-1", "2026-08", 10_000).unwrap();
    assert_eq!(l.evs.len(), 1);
    assert_eq!(l.evs[0].amount_cents, 10_000);
}

#[test]
fn set_allocation_inserts_delta_on_adjustment() {
    let mut l = ledger();
    l.set_allocation("flow-1", "2026-08", 10_000).unwrap();
    l.set_allocation("flow-1", "2026-08", 15_000).unwrap();
    assert_eq!(l.evs.len(), 2);
    assert_eq!(l.evs.iter().map(|e| e.amount_cents).sum::<i64>(), 15_000);
}

#[test]
fn set_allocation_no_op_when_value_unchanged() {
    let mut l = ledger();
    l.set_allocation("flow-1", "2026-08", 10_000).unwrap();
    l.set_allocation("flow-1", "2026-08", 10_000).unwrap();
    assert_eq!(l.evs.len(), 1);
}

#[test]
fn set_allocation_rejects_negative_amount() {
    let mut l = ledger();
    assert_eq!(
        l.set_allocation("flow-1", "2026-08", -100).unwrap_err(),
        "Allocation amount must be non-negative"
    );
}

#[test]
fn get_budget_month_returns_flow_scoped_to_month() {
    let mut l = ledger();
    l.set_allocation("flow-1", "2026-08", 20_000).unwrap();
    l.set_allocation("flow-1", "2026-07", 10_000).unwrap();
    let view = l.view("2026-08");
    let row = find_category(&view, "flow-1");
    assert_eq!(row.allocated_cents, 20_000);
    assert_eq!(row.spent_cents, 0);
}

#[test]
fn get_budget_month_returns_sinking_cumulative() {
    let mut l = ledger();
    l.set_allocation("sink-1", "2026-07", 5_000).unwrap();
    l.set_allocation("sink-1", "2026-08", 5_000).unwrap();
    let view = l.view("2026-08");
    assert_eq!(find_category(&view, "sink-1").allocated_cents, 10_000);
}

#[test]
fn get_budget_month_groups_are_bucketed_by_kind() {
    let l = ledger();
    let view = l.view("2026-08");
    for g in &view.flow_groups {
        for c in &g.categories {
            assert_eq!(c.kind, "flow");
        }
    }
    for g in &view.sinking_groups {
        for c in &g.categories {
            assert_eq!(c.kind, "sinking");
        }
    }
    assert_eq!(view.flow_groups.len(), 1);
    assert_eq!(view.flow_groups[0].categories.len(), 2);
    assert_eq!(view.flow_ungrouped.len(), 1);
    assert_eq!(view.sinking_groups.len(), 1);
    assert!(view.sinking_ungrouped.is_empty());
}

#[test]
fn get_budget_month_group_rollup_totals_match_sum_of_rows() {
    let mut l = ledger();
    l.set_allocation("flow-1", "2026-08", 15_000).unwrap();
    l.set_allocation("sink-1", "2026-08", 8_000).unwrap();
    l.split("envelope", "flow-2", -2_500, "2026-08-03");
    let view = l.view("2026-08");
    for g in view.flow_groups.iter().chain(view.sinking_groups.iter()) {
        let expected_alloc: i64 = g.categories.iter().map(|c| c.allocated_cents).sum();
        let expected_spent: i64 = g.categories.iter().map(|c| c.spent_cents).sum();
        assert_eq!(g.total_allocated_cents, expected_alloc);
        assert_eq!(g.total_spent_cents, expected_spent);
    }
    assert_eq!(view.flow_groups[0].total_spent_cents, 2_500);
}

#[test]
fn get_budget_month_groups_absent_when_no_categories_of_that_kind() {
    let view = ledger().view("2026-08");
    assert!(!view.sinking_groups.iter().any(|g| g.group_name == "Essentials"));
    assert!(!view.flow_groups.iter().any(|g| g.group_name == "Savings"));
}

#[test]
fn income_rows_present_with_zero_actual_when_no_splits() {
    let view = ledger().view("2026-08");
    assert_eq!(view.income_rows.len(), 1);
    assert_eq!(view.income_rows[0].actual_cents, 0);
}

#[test]
fn income_rows_reflect_splits_dated_in_month() {
    let mut l = ledger();
    l.split("income", "inc-1", 480_000, "2026-08-15");
    assert_eq!(l.view("2026-08").income_rows[0].actual_cents, 480_000);
}

#[test]
fn income_splits_outside_month_not_counted() {
    let mut l = ledger();
    l.split("income", "inc-1", 480_000, "2026-07-31");
    assert_eq!(l.view("2026-08").income_rows[0].actual_cents, 0);
}

#[test]
fn left_to_allocate_equals_income_minus_allocations() {
    let mut l = ledger();
    l.split("income", "inc-1", 300_000, "2026-08-01");
    l.set_allocation("flow-1", "2026-08", 100_000).unwrap();
    assert_eq!(l.view("2026-08").left_to_allocate_cents, 200_000);
}

#[test]
fn group_remaining_cents_equals_allocated_minus_spent() {
    let mut l = ledger();
    l.set_allocation("flow-1", "2026-08", 50_000).unwrap();
    l.split("envelope", "flow-1", -7_000, "2026-08-09");
    let view = l.view("2026-08");
    for g in &view.flow_groups {
        assert_eq!(g.remaining_cents, g.total_allocated_cents - g.total_spent_cents);
    }
    assert_eq!(view.flow_groups[0].remaining_cents, 43_000);
}

#[test]
fn reallocate_inserts_two_paired_rows() {
    let mut l = ledger();
    l.reallocate("flow-1", "flow-2", "2026-08", 5_000).unwrap();
    assert_eq!(l.evs.len(), 2);
    assert_eq!(l.evs[0].category_id, "flow-1");
    assert_eq!(l.evs[0].amount_cents, -5_000);
    assert_eq!(l.evs[1].category_id, "flow-2");
    assert_eq!(l.evs[1].amount_cents, 5_000);
    assert_eq!(l.count("flow-1", AllocationKind::Reallocate), 1);
}

#[test]
fn reallocate_sets_counterpart_category_id() {
    let mut l = ledger();
    l.reallocate("flow-1", "flow-2", "2026-08", 3_000).unwrap();
    assert_eq!(l.evs[0].counterpart_category_id.as_deref(), Some("flow-2"));
    assert_eq!(l.evs[1].counterpart_category_id.as_deref(), Some("flow-1"));
}

#[test]
fn reallocate_rejects_same_category() {
    let mut l = ledger();
    assert_eq!(
        l.reallocate("flow-1", "flow-1", "2026-08", 1_000).unwrap_err(),
        "Source and destination must be different categories"
    );
}

#[test]
fn reallocate_rejects_zero_amount() {
    let mut l = ledger();
    assert_eq!(l.reallocate("flow-1", "flow-2", "2026-08", 0).unwrap_err(), "Reallocation amount must be positive");
}

#[test]
fn reallocate_rejects_negative_amount() {
    let mut l = ledger();
    assert!(l.reallocate("flow-1", "flow-2", "2026-08", -500).is_err());
}

#[test]
fn get_budget_month_carried_in_zero_before_close() {
    let mut l = ledger();
    l.set_allocation("flow-1", "2026-08", 20_000).unwrap();
    assert_eq!(find_category(&l.view("2026-08"), "flow-1").carried_in_cents, 0);
}

#[test]
fn get_budget_month_carried_in_populated_after_close() {
    let mut l = ledger();
    l.set_allocation("flow-1", "2026-08", 10_000).unwrap();
    l.split("envelope", "flow-1", -20_000, "2026-08-15");
    l.close("2026-08", false).unwrap();
    let view = l.view("2026-09");
    let row = find_category(&view, "flow-1");
    assert_eq!(row.carried_in_cents, -10_000);
    assert_eq!(row.allocated_cents, 0, "carry must not inflate allocated_cents");
}

#[test]
fn left_to_allocate_not_reduced_by_carry_events() {
    let mut l = ledger();
    l.split("income", "inc-1", 10_000, "2026-08-01");
    l.set_allocation("flow-1", "2026-08", 10_000).unwrap();
    l.split("envelope", "flow-1", -15_000, "2026-08-10");
    l.close("2026-08", false).unwrap();
    l.split("income", "inc-1", 20_000, "2026-09-01");
    assert_eq!(l.view("2026-09").left_to_allocate_cents, 20_000);
}

#[test]
fn close_month_writes_carry_for_flow_debt() {
    let mut l = ledger();
    l.set_allocation("flow-1", "2026-08", 30_000).unwrap();
    l.split("envelope", "flow-1", -40_000, "2026-08-15");
    let (target, carries) = close_month_plan("2026-08", false, &l.cats, &l.evs, &l.acts).unwrap();
    assert_eq!(target, "2026-09");
    assert_eq!(carries.len(), 1);
    assert_eq!(carries[0].category_id, "flow-1");
    assert_eq!(carries[0].month, "2026-09");
    assert_eq!(carries[0].amount_cents, -10_000);
    assert!(carries[0].kind == AllocationKind::Carry);
}

#[test]
fn close_month_no_carry_for_flow_surplus() {
    let mut l = ledger();
    l.set_allocation("flow-1", "2026-08", 50_000).unwrap();
    l.split("envelope", "flow-1", -30_000, "2026-08-10");
    let (_, carries) = close_month_plan("2026-08", false, &l.cats, &l.evs, &l.acts).unwrap();
    assert!(carries.is_empty());
}

#[test]
fn close_month_no_carry_for_sinking() {
    let mut l = ledger();
    l.split("envelope", "sink-1", -30_000, "2026-08-10");
    let (_, carries) = close_month_plan("2026-08", false, &l.cats, &l.evs, &l.acts).unwrap();
    assert!(carries.iter().all(|c| c.category_id != "sink-1"));
}

#[test]
fn close_month_returns_error_when_already_closed() {
    let l = ledger();
    assert_eq!(
        close_month_plan("2026-08", true, &l.cats, &l.evs, &l.acts).unwrap_err(),
        "month 2026-08 is already closed"
    );
    assert_eq!(
        close_month_plan("2026-8", false, &l.cats, &l.evs, &l.acts).unwrap_err(),
        "invalid month format '2026-8'; expected YYYY-MM"
    );
}

#[test]
fn close_month_carry_amount_matches_available() {
    let mut l = ledger();
    l.set_allocation("flow-1", "2026-08", 10_000).unwrap();
    l.split("envelope", "flow-1", -25_000, "2026-08-20");
    let (_, carries) = close_month_plan("2026-08", false, &l.cats, &l.evs, &l.acts).unwrap();
    assert_eq!(carries[0].amount_cents, -15_000);
}

#[test]
fn reallocate_is_net_zero_for_left_to_allocate() {
    let mut l = ledger();
    l.split("income", "inc-1", 500_000, "2026-08-01");
    l.set_allocation("flow-1", "2026-08", 200_000).unwrap();
    let before = l.view("2026-08").left_to_allocate_cents;
    l.reallocate("flow-1", "flow-2", "2026-08", 50_000).unwrap();
    assert_eq!(l.view("2026-08").left_to_allocate_cents, before);
}

#[test]
fn flow_remaining_zero_when_no_allocations() {
    let l = ledger();
    let view = home_view("2026-08-01", &l.cats, &l.evs, &l.acts).unwrap();
    assert_eq!(view.flow_remaining_cents, 0);
    assert_eq!(view.month, "2026-08");
}

#[test]
fn flow_remaining_sums_positive_only() {
    let mut l = ledger();
    l.set_allocation("flow-1", "2026-08", 30_000).unwrap();
    l.split("envelope", "flow-1", -10_000, "2026-08-10");
    l.set_allocation("flow-2", "2026-08", 5_000).unwrap();
    l.split("envelope", "flow-2", -20_000, "2026-08-10");
    let view = home_view("2026-08-15", &l.cats, &l.evs, &l.acts).unwrap();
    assert_eq!(view.flow_remaining_cents, 20_000);
    assert_eq!(flow_remaining_cents(&l.cats, &l.evs, &l.acts, "2026-08").unwrap(), 20_000);
}

#[test]
fn flow_remaining_clamped_when_all_negative() {
    let mut l = ledger();
    l.set_allocation("flow-1", "2026-08", 10_000).unwrap();
    l.split("envelope", "flow-1", -50_000, "2026-08-05");
    let view = home_view("2026-08-15", &l.cats, &l.evs, &l.acts).unwrap();
    assert_eq!(view.flow_remaining_cents, 0);
}

#[test]
fn safe_to_spend_zero_when_no_days() {
    let mut l = ledger();
    l.set_allocation("flow-1", "2026-08", 100_000).unwrap();
    let view = home_view("2026-08-32", &l.cats, &l.evs, &l.acts).unwrap();
    assert_eq!(view.days_remaining, 0);
    assert_eq!(view.safe_to_spend_daily_cents, 0);
}

#[test]
fn safe_to_spend_integer_division() {
    let mut l = ledger();
    l.set_allocation("flow-1", "2026-08", 100).unwrap();
    // Aug 29 -> 3 days remaining; 100 / 3 = 33
    let view = home_view("2026-08-29", &l.cats, &l.evs, &l.acts).unwrap();
    assert_eq!(view.days_remaining, 3);
    assert_eq!(view.safe_to_spend_daily_cents, 33);
}

// --- reallocation log ---

#[test]
fn reallocation_log_empty_when_no_reallocations() {
    let l = ledger();
    assert!(l.view_with_log("2026-08").reallocation_log.is_empty());
}

#[test]
fn reallocation_log_has_one_entry_per_pair() {
    let mut l = ledger();
    l.reallocate("flow-1", "flow-2", "2026-08", 7_500).unwrap();
    let view = l.view_with_log("2026-08");
    assert_eq!(view.reallocation_log.len(), 1);
    let entry = &view.reallocation_log[0];
    assert_eq!(entry.from_category_id, "flow-1");
    assert_eq!(entry.to_category_id, "flow-2");
    assert_eq!(entry.amount_cents, 7_500);
}

#[test]
fn reallocation_log_names_match_category_names() {
    let mut l = ledger();
    l.reallocate("flow-1", "flow-2", "2026-08", 1_000).unwrap();
    let view = l.view_with_log("2026-08");
    let entry = &view.reallocation_log[0];
    assert!(!entry.from_name.is_empty(), "from_name must be populated");
    assert!(!entry.to_name.is_empty(), "to_name must be populated");
    assert_eq!(entry.from_name, "Groceries");
    assert_eq!(entry.to_name, "Dining Out");
}

#[test]
fn reallocation_log_scoped_to_month() {
    let mut l = ledger();
    l.reallocate("flow-1", "flow-2", "2026-07", 1_000).unwrap();
    assert!(
        l.view_with_log("2026-08").reallocation_log.is_empty(),
        "reallocation in July must not appear in August log"
    );
}

#[test]
fn reallocation_log_keeps_row_order_and_skips_unknown_categories() {
    let mut l = ledger();
    l.reallocate("flow-1", "flow-2", "2026-08", 100).unwrap();
    l.reallocate("flow-3", "gone", "2026-08", 200).unwrap();
    l.reallocate("sink-1", "flow-3", "2026-08", 300).unwrap();
    let log = reallocation_log("2026-08", &l.log_rows(), &l.cats).unwrap();
    assert_eq!(log.len(), 2);
    assert_eq!(log[0].amount_cents, 300);
    assert_eq!(log[0].from_name, "Car Maintenance");
    assert_eq!(log[1].amount_cents, 100);
    assert_eq!(log[0].id, "ev-4");
}

#[test]
fn reallocation_log_refuses_the_minimum_amount() {
    let l = ledger();
    let rows = vec![AllocationLogRow {
        id: "e".into(),
        category_id: "flow-1".into(),
        month: "2026-08".into(),
        amount_cents: i64::MIN,
        kind: AllocationKind::Reallocate,
        counterpart_category_id: Some("flow-2".into()),
        created_at: "t".into(),
    }];
    assert_eq!(reallocation_log("2026-08", &rows, &l.cats).unwrap_err(), "integer overflow");
}
