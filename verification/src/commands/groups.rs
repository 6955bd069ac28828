//! Category groups.

use vstd::prelude::*;
use crate::text::{concat_str, int_chars, int_text, nonblank_name, string_from_chars, trim};

verus! {

#[derive(Debug)]
pub struct CategoryGroupRow {
    pub id: String,
    pub name: String,
    pub sort_order: i64,
}

/// The name a group is stored under: trimmed, and never blank.
pub fn group_name(name: &str) -> (r: Result<String, String>)
    ensures
        match r {
            Ok(n) => trim(name@).len() > 0 && n@ == trim(name@),
            Err(e) => trim(name@).len() == 0 && e@ == "Group name cannot be blank"@,
        },
{
    nonblank_name(name, "Group name cannot be blank")
}

/// A group may be deleted only when no category is assigned to it.
pub fn group_deletable(id: &str, assigned: i64) -> (r: Result<(), String>)
    ensures
        r is Ok <==> assigned <= 0,
        r matches Err(e) ==> e@ == "Cannot delete group "@ + id@ + ": "@ + int_text(assigned as int)
            + " categories are still assigned to it"@,
{
    if assigned > 0 {
        let head = concat_str("Cannot delete group ", id);
        let head = concat_str(head.as_str(), ": ");
        let n = int_chars(assigned);
        let n = string_from_chars(n.as_slice());
        let head = concat_str(head.as_str(), n.as_str());
        return Err(concat_str(head.as_str(), " categories are still assigned to it"));
    }
    Ok(())
}

} // verus!
