//! Store errors and the row-level checks every store operation shares: a write
//! that touched no row is a missing resource, a lookup that found nothing is a
//! missing resource, and a constraint violation is a conflict.

use vstd::prelude::*;

verus! {

broadcast use vstd::string::group_string_axioms;

/// Why a store operation failed.
#[derive(Debug, Clone)]
pub enum StoreError {
    /// The named resource does not exist.
    NotFound(&'static str),
    /// A uniqueness or reference constraint refused the write.
    Conflict(String),
    /// The request was malformed.
    Invalid(String),
    /// The database failed; the message describes it.
    Db(String),
}

/// A write (update or delete) that touched `affected` rows: none means the
/// addressed resource does not exist.
pub fn require_affected(affected: u64, what: &'static str) -> (r: Result<(), StoreError>)
    ensures
        affected == 0 ==> (r matches Err(StoreError::NotFound(w)) && w == what),
        affected > 0 ==> r is Ok,
{
    if affected == 0 {
        Err(StoreError::NotFound(what))
    } else {
        Ok(())
    }
}

/// A lookup that found `row` (or nothing): nothing means the resource does not
/// exist.
pub fn found<T>(row: Option<T>, what: &'static str) -> (r: Result<T, StoreError>)
    ensures
        row matches Some(v) ==> r == Ok::<T, StoreError>(v),
        row is None ==> (r matches Err(StoreError::NotFound(w)) && w == what),
{
    match row {
        Some(v) => Ok(v),
        None => Err(StoreError::NotFound(what)),
    }
}

/// The message a constraint conflict carries when the database gave none.
pub open spec fn default_conflict_message() -> Seq<char> {
    "constraint violation"@
}

/// Map a database failure onto a store error: a constraint violation (a
/// duplicate key, a dangling reference) is a conflict carrying the database's
/// message (or a generic one); anything else is a database error carrying
/// `rendered`, the failure's description.
pub fn classify_db_failure(constraint_violation: bool, message: Option<String>, rendered: String) -> (r:
    StoreError)
    ensures
        constraint_violation ==> (r matches StoreError::Conflict(m) && m@ == match message {
            Some(s) => s@,
            None => default_conflict_message(),
        }),
        !constraint_violation ==> (r matches StoreError::Db(m) && m@ == rendered@),
{
    if constraint_violation {
        match message {
            Some(m) => StoreError::Conflict(m),
            None => StoreError::Conflict("constraint violation".to_string()),
        }
    } else {
        StoreError::Db(rendered)
    }
}

/// A row that could not be decoded: a database error with this message.
pub fn decode_err(msg: String) -> (r: StoreError)
    ensures
        r matches StoreError::Db(m) && m@ == msg@,
{
    StoreError::Db(msg)
}

} // verus!
