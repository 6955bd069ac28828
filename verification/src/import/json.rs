//! JSON text of the raw records kept beside each imported row.

use vstd::prelude::*;

verus! {

/// `serde_json::to_string` of a JSON object whose members are the given
/// key / string-value pairs.
pub uninterp spec fn json_string_object(members: Seq<(Seq<char>, Seq<char>)>) -> Seq<char>;

pub open spec fn members_view(m: Seq<(String, String)>) -> Seq<(Seq<char>, Seq<char>)> {
    m.map_values(|p: (String, String)| (p.0@, p.1@))
}

/// Serializes the pairs as a `serde_json::Map` of string values with
/// `serde_json::to_string`. The result is named, not described: it is the
/// JSON text of the object, whose exact escaping and member order are
/// serde_json's.
#[verifier::external_body]
pub(crate) fn json_object_text(members: &Vec<(String, String)>) -> (r: String)
    ensures
        r@ == json_string_object(members_view(members@)),
{
    let map: serde_json::Map<String, serde_json::Value> = members.iter().map(
        |(k, v)| (k.clone(), serde_json::Value::String(v.clone())),
    ).collect();
    serde_json::to_string(&map).unwrap_or_else(|_| "{}".into())
}

} // verus!
