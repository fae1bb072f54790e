//! Row ids: a UUID is held as its 128-bit value and stored as its hyphenated
//! text.

use vstd::prelude::*;

use super::error::StoreError;
use crate::text::{push_str, push_uuid, spec_uuid_text, string_of};

verus! {

broadcast use vstd::string::group_string_axioms;

/// The value `uuid::Uuid::parse_str` reads from a text, `None` when it rejects
/// the text.
pub uninterp spec fn uuid_parsed(s: Seq<char>) -> Option<u128>;

/// `uuid::Uuid::parse_str`, the parsed UUID taken as its 128-bit value. The
/// canonical hyphenated lowercase form of a value parses back to that value.
#[verifier::external_body]
fn parse_uuid(s: &str) -> (r: Option<u128>)
    ensures
        r == uuid_parsed(s@),
        forall|v: u128| s@ == spec_uuid_text(v) ==> r == Some(v),
{
    uuid::Uuid::parse_str(s).ok().map(|u| u.as_u128())
}

/// The message a stored id that is not a UUID is reported with.
pub open spec fn bad_id_message(raw: Seq<char>) -> Seq<char> {
    "bad uuid `"@ + raw + "`"@
}

/// The stored text of an id: its hyphenated lowercase rendering.
pub fn id_text(id: u128) -> (r: String)
    ensures
        r@ == spec_uuid_text(id),
{
    let mut out: Vec<char> = Vec::new();
    push_uuid(&mut out, id);
    proof {
        assert(out@ =~= spec_uuid_text(id));
    }
    string_of(&out)
}

/// The id a stored text denotes; a text that is not a UUID is a database
/// error naming it.
pub fn id_value(raw: &str) -> (r: Result<u128, StoreError>)
    ensures
        uuid_parsed(raw@) matches Some(v) ==> r == Ok::<u128, StoreError>(v),
        uuid_parsed(raw@) is None ==> (r matches Err(StoreError::Db(m)) && m@ == bad_id_message(
            raw@,
        )),
        forall|v: u128| raw@ == spec_uuid_text(v) ==> r == Ok::<u128, StoreError>(v),
{
    match parse_uuid(raw) {
        Some(v) => Ok(v),
        None => {
            let mut out: Vec<char> = Vec::new();
            push_str(&mut out, "bad uuid `");
            push_str(&mut out, raw);
            push_str(&mut out, "`");
            proof {
                reveal_strlit("bad uuid `");
                reveal_strlit("`");
                assert(out@ =~= bad_id_message(raw@));
            }
            Err(StoreError::Db(string_of(&out)))
        },
    }
}

} // verus!
