//! Accounts: the names they may carry.

use vstd::prelude::*;
use crate::text::{concat_str, nonblank_name, trim};

verus! {

#[derive(Debug)]
pub struct AccountRow {
    pub id: String,
    pub name: String,
    pub account_type: String,
    pub subtype: String,
    pub institution: String,
    pub currency: String,
    pub created_at: String,
}

/// The name an account is stored under: trimmed, and never blank.
pub fn account_name(name: &str) -> (r: Result<String, String>)
    ensures
        match r {
            Ok(n) => trim(name@).len() > 0 && n@ == trim(name@),
            Err(e) => trim(name@).len() == 0 && e@ == "account name must not be blank"@,
        },
{
    nonblank_name(name, "account name must not be blank")
}

/// The outcome of an account update that touched `rows_affected` rows.
pub fn account_update_outcome(rows_affected: usize, id: &str) -> (r: Result<(), String>)
    ensures
        r is Ok <==> rows_affected > 0,
        r matches Err(e) ==> e@ == "no account found with id "@ + id@,
{
    if rows_affected == 0 {
        return Err(concat_str("no account found with id ", id));
    }
    Ok(())
}

} // verus!
