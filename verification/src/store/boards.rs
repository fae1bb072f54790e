//! Versioned board rows: each republish of a board inserts a fresh version
//! within its scope `(org, site_id, slug)`.

use vstd::prelude::*;

verus! {

/// The version the next publish of a board gets, from the highest version its
/// scope holds (`None` when it holds none): one past it, or 1.
pub fn next_board_version(max_version: Option<i64>) -> (r: i64)
    requires
        max_version matches Some(m) ==> m < i64::MAX,
    ensures
        r == match max_version {
            Some(m) => m + 1,
            None => 1,
        },
{
    match max_version {
        Some(m) => m + 1,
        None => 1,
    }
}

} // verus!
