//! Categories, income categories and how a transaction is assigned to one.

use vstd::prelude::*;
use crate::text::{concat_str, nonblank_name, str_eq, trim};

verus! {

#[derive(Debug)]
pub struct CategoryRow {
    pub id: String,
    pub name: String,
    /// "flow" | "sinking"
    pub kind: String,
    pub group_id: Option<String>,
    pub created_at: String,
}

#[derive(Debug)]
pub struct IncomeCategoryItem {
    pub id: String,
    pub name: String,
    pub hidden: bool,
}

/// The name a category is stored under: trimmed, and never blank.
pub fn category_name(name: &str) -> (r: Result<String, String>)
    ensures
        match r {
            Ok(n) => trim(name@).len() > 0 && n@ == trim(name@),
            Err(e) => trim(name@).len() == 0 && e@ == "Category name cannot be blank"@,
        },
{
    nonblank_name(name, "Category name cannot be blank")
}

/// The name an income category is stored under: trimmed, and never blank.
pub fn income_category_name(name: &str) -> (r: Result<String, String>)
    ensures
        match r {
            Ok(n) => trim(name@).len() > 0 && n@ == trim(name@),
            Err(e) => trim(name@).len() == 0 && e@ == "Income category name cannot be blank"@,
        },
{
    nonblank_name(name, "Income category name cannot be blank")
}

/// `"{what} {id} not found"` when an update or delete touched no row.
pub fn found_or_missing(rows_affected: usize, what: &str, id: &str) -> (r: Result<(), String>)
    ensures
        r is Ok <==> rows_affected > 0,
        r matches Err(e) ==> e@ == what@ + " "@ + id@ + " not found"@,
{
    if rows_affected == 0 {
        let head = concat_str(what, " ");
        let head = concat_str(head.as_str(), id);
        return Err(concat_str(head.as_str(), " not found"));
    }
    Ok(())
}

/// The stored form of the hidden flag.
pub fn hidden_flag(hidden: bool) -> (v: i64)
    ensures
        v == (if hidden { 1int } else { 0int }),
{
    if hidden {
        1
    } else {
        0
    }
}

/// What assigning a transaction to a target does once its old split is
/// gone: an empty target leaves it unassigned; an envelope or an income
/// category gets a split, and an envelope also teaches the categorization
/// rule for the transaction's description.
#[derive(Debug, PartialEq, Eq, Structural)]
pub enum SplitAction {
    Clear,
    Assign { learn_rule: bool },
}

pub open spec fn split_action(target_type: Seq<char>, target_id: Seq<char>) -> Result<SplitAction, Seq<char>> {
    if target_id.len() == 0 {
        Ok(SplitAction::Clear)
    } else if target_type != "envelope"@ && target_type != "income"@ {
        Err("target_type must be 'envelope' or 'income', got '"@ + target_type + "'"@)
    } else {
        Ok(SplitAction::Assign { learn_rule: target_type == "envelope"@ })
    }
}

/// The decision of a split upsert. The transaction's previous split is
/// removed before this is consulted, whatever it answers.
pub fn split_plan(target_type: &str, target_id: &str) -> (r: Result<SplitAction, String>)
    ensures
        match r {
            Ok(a) => split_action(target_type@, target_id@) == Ok::<SplitAction, Seq<char>>(a),
            Err(e) => split_action(target_type@, target_id@) == Err::<SplitAction, Seq<char>>(e@),
        },
{
    if target_id.is_empty() {
        return Ok(SplitAction::Clear);
    }
    let envelope = str_eq(target_type, "envelope");
    let income = str_eq(target_type, "income");
    if !envelope && !income {
        let head = concat_str("target_type must be 'envelope' or 'income', got '", target_type);
        return Err(concat_str(head.as_str(), "'"));
    }
    Ok(SplitAction::Assign { learn_rule: envelope })
}

} // verus!
