//! Navigation-tree guards: a node never parents itself, and a parent must live
//! in the same org (a node cannot reparent across tenants).

use vstd::prelude::*;

use super::error::StoreError;

verus! {

broadcast use vstd::string::group_string_axioms;

/// The message refusing a node as its own parent.
pub open spec fn self_parent_message() -> Seq<char> {
    "nav node cannot parent itself"@
}

/// Refuse a node that names itself as its parent.
pub fn check_not_own_parent(id: u128, parent_id: Option<u128>) -> (r: Result<(), StoreError>)
    ensures
        parent_id == Some(id) ==> (r matches Err(StoreError::Conflict(m)) && m@
            == self_parent_message()),
        parent_id != Some(id) ==> r is Ok,
{
    match parent_id {
        Some(p) => {
            if p == id {
                Err(StoreError::Conflict("nav node cannot parent itself".to_string()))
            } else {
                Ok(())
            }
        },
        None => Ok(()),
    }
}

/// The same-tenant guard: the node found (its org, or nothing) must belong to
/// `org`; otherwise it does not exist as far as this org is concerned.
pub fn require_in_org(found_org: Option<&str>, org: &str) -> (r: Result<(), StoreError>)
    ensures
        r is Ok <==> (found_org matches Some(o) && o@ == org@),
        r matches Err(e) ==> (e matches StoreError::NotFound(w) && w@ == "nav node"@),
{
    match found_org {
        Some(o) => {
            if crate::text::str_eq(o, org) {
                Ok(())
            } else {
                Err(StoreError::NotFound("nav node"))
            }
        },
        None => Err(StoreError::NotFound("nav node")),
    }
}

} // verus!
