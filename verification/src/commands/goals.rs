//! Savings goals and their progress.

use vstd::prelude::*;
use crate::commands::budget::{activity_sum, event_sum, i64_fits, sum_activity, sum_events, AllocationEvent, SplitActivity};
use crate::text::{nonblank_name, trim};

verus! {

#[derive(Debug)]
pub struct Goal {
    pub id: String,
    pub name: String,
    pub target_amount_cents: i64,
    pub category_id: Option<String>,
    pub target_date: Option<String>,
    pub achieved_at: Option<String>,
    pub created_at: String,
}

#[derive(Debug)]
pub struct GoalWithProgress {
    pub id: String,
    pub name: String,
    pub target_amount_cents: i64,
    pub category_id: Option<String>,
    pub target_date: Option<String>,
    pub achieved_at: Option<String>,
    pub created_at: String,
    pub current_balance_cents: i64,
}

/// A goal's balance: all of its category's user-driven allocations ever,
/// minus all of the category's envelope splits ever.
pub open spec fn goal_balance_value(evs: Seq<AllocationEvent>, splits: Seq<SplitActivity>, category_id: Seq<char>) -> int {
    event_sum(evs, Some(category_id), None, Some(false)) - activity_sum(
        splits,
        "envelope"@,
        category_id,
        None,
        false,
    )
}

pub open spec fn goal_sums_fit(evs: Seq<AllocationEvent>, splits: Seq<SplitActivity>, category_id: Seq<char>) -> bool {
    i64_fits(event_sum(evs, Some(category_id), None, Some(false))) && i64_fits(
        activity_sum(splits, "envelope"@, category_id, None, false),
    )
}

/// The balance that funds a goal, or "integer overflow" when one of the
/// two totals leaves the `i64` range.
pub fn goal_balance(evs: &Vec<AllocationEvent>, splits: &Vec<SplitActivity>, category_id: &str) -> (r: Result<i64, String>)
    requires
        goal_sums_fit(evs@, splits@, category_id@) ==> i64_fits(goal_balance_value(evs@, splits@, category_id@)),
    ensures
        match r {
            Ok(v) => goal_sums_fit(evs@, splits@, category_id@) && v == goal_balance_value(evs@, splits@, category_id@),
            Err(e) => !goal_sums_fit(evs@, splits@, category_id@) && e@ == "integer overflow"@,
        },
{
    let allocated = match sum_events(evs, Some(category_id), None, Some(false)) {
        Some(v) => v,
        None => return Err(String::from_str("integer overflow")),
    };
    let spent = match sum_activity(splits, "envelope", category_id, None, false) {
        Some(v) => v,
        None => return Err(String::from_str("integer overflow")),
    };
    Ok(allocated - spent)
}

pub open spec fn goal_progress(g: Goal, evs: Seq<AllocationEvent>, splits: Seq<SplitActivity>) -> int {
    match g.category_id {
        Some(c) => goal_balance_value(evs, splits, c@),
        None => 0,
    }
}

pub open spec fn goal_fits(g: Goal, evs: Seq<AllocationEvent>, splits: Seq<SplitActivity>) -> bool {
    match g.category_id {
        Some(c) => goal_sums_fit(evs, splits, c@),
        None => true,
    }
}

/// Whether every goal's balance can be taken in `i64`, so that
/// `goals_with_progress` may be asked for these goals.
pub fn goals_progress_checks(goals: &Vec<Goal>, evs: &Vec<AllocationEvent>, splits: &Vec<SplitActivity>) -> (r: bool)
    ensures
        r == (forall|k: int|
            0 <= k < goals@.len() && goal_fits(#[trigger] goals@[k], evs@, splits@) ==> i64_fits(
                goal_progress(goals@[k], evs@, splits@),
            )),
{
    for i in 0..goals.len()
        invariant
            forall|k: int|
                0 <= k < i && goal_fits(#[trigger] goals@[k], evs@, splits@) ==> i64_fits(
                    goal_progress(goals@[k], evs@, splits@),
                ),
    {
        match &goals[i].category_id {
            Some(c) => {
                let a = sum_events(evs, Some(c.as_str()), None, Some(false));
                let b = sum_activity(splits, "envelope", c.as_str(), None, false);
                match (a, b) {
                    (Some(x), Some(y)) => {
                        let d = x as i128 - y as i128;
                        if d < i64::MIN as i128 || d > i64::MAX as i128 {
                            assert(goal_fits(goals@[i as int], evs@, splits@));
                            return false;
                        }
                    },
                    _ => {},
                }
            },
            None => {},
        }
    }
    true
}

/// Every goal with its progress (0 for a goal without a category).
pub fn goals_with_progress(goals: Vec<Goal>, evs: &Vec<AllocationEvent>, splits: &Vec<SplitActivity>) -> (r: Result<Vec<GoalWithProgress>, String>)
    requires
        forall|k: int|
            0 <= k < goals@.len() && goal_fits(#[trigger] goals@[k], evs@, splits@) ==> i64_fits(
                goal_progress(goals@[k], evs@, splits@),
            ),
    ensures
        match r {
            Ok(v) => v@.len() == goals@.len() && forall|k: int|
                0 <= k < goals@.len() ==> {
                    let g = #[trigger] goals@[k];
                    &&& goal_fits(g, evs@, splits@)
                    &&& v@[k].id == g.id
                    &&& v@[k].name == g.name
                    &&& v@[k].target_amount_cents == g.target_amount_cents
                    &&& v@[k].category_id == g.category_id
                    &&& v@[k].target_date == g.target_date
                    &&& v@[k].achieved_at == g.achieved_at
                    &&& v@[k].created_at == g.created_at
                    &&& v@[k].current_balance_cents == goal_progress(g, evs@, splits@)
                },
            Err(e) => (exists|k: int| 0 <= k < goals@.len() && !goal_fits(#[trigger] goals@[k], evs@, splits@))
                && e@ == "integer overflow"@,
        },
{
    let ghost gs = goals@;
    let mut out: Vec<GoalWithProgress> = Vec::new();
    let mut rest = goals;
    let n = rest.len();
    let mut i: usize = 0;
    while i < n
        invariant
            gs == goals@,
            n == gs.len(),
            i <= n,
            rest@.len() == n - i,
            rest@ == gs.subrange(i as int, n as int),
            out@.len() == i,
            forall|k: int| 0 <= k < gs.len() && goal_fits(#[trigger] gs[k], evs@, splits@) ==> i64_fits(
                goal_progress(gs[k], evs@, splits@),
            ),
            forall|k: int|
                0 <= k < i ==> {
                    let g = #[trigger] gs[k];
                    &&& goal_fits(g, evs@, splits@)
                    &&& out@[k].id == g.id
                    &&& out@[k].name == g.name
                    &&& out@[k].target_amount_cents == g.target_amount_cents
                    &&& out@[k].category_id == g.category_id
                    &&& out@[k].target_date == g.target_date
                    &&& out@[k].achieved_at == g.achieved_at
                    &&& out@[k].created_at == g.created_at
                    &&& out@[k].current_balance_cents == goal_progress(g, evs@, splits@)
                },
        decreases n - i,
    {
        let g = rest.remove(0);
        assert(g == gs[i as int]);
        assert(rest@ == gs.subrange(i + 1, n as int));
        let balance = match &g.category_id {
            Some(c) => {
                match goal_balance(evs, splits, c.as_str()) {
                    Ok(b) => b,
                    Err(e) => {
                        assert(!goal_fits(gs[i as int], evs@, splits@));
                        return Err(e);
                    },
                }
            },
            None => 0,
        };
        out.push(
            GoalWithProgress {
                id: g.id,
                name: g.name,
                target_amount_cents: g.target_amount_cents,
                category_id: g.category_id,
                target_date: g.target_date,
                achieved_at: g.achieved_at,
                created_at: g.created_at,
                current_balance_cents: balance,
            },
        );
        i = i + 1;
    }
    Ok(out)
}

/// A goal's name and target as a goal is created or updated: the trimmed
/// name, refused when blank, and a target that must be positive.
pub fn validate_goal(name: &str, target_amount_cents: i64) -> (r: Result<String, String>)
    ensures
        match r {
            Ok(n) => trim(name@).len() > 0 && target_amount_cents > 0 && n@ == trim(name@),
            Err(e) => if trim(name@).len() == 0 {
                e@ == "Goal name cannot be blank"@
            } else {
                target_amount_cents <= 0 && e@ == "Target amount must be greater than zero"@
            },
        },
{
    let trimmed = nonblank_name(name, "Goal name cannot be blank")?;
    if target_amount_cents <= 0 {
        return Err(String::from_str("Target amount must be greater than zero"));
    }
    Ok(trimmed)
}

} // verus!
