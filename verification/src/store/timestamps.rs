//! Stored instants: a row's timestamp is RFC 3339 text (UTC, microseconds, `Z`)
//! on disk and an instant — seconds since the Unix epoch plus the nanoseconds
//! within that second — in a record.

use vstd::prelude::*;

use super::error::StoreError;
use crate::text::{push_str, string_of};

verus! {

broadcast use vstd::string::group_string_axioms;

/// An instant in UTC: `secs` since the Unix epoch and `nanos` within that
/// second (at or above one second only inside a leap second).
#[derive(Debug, Clone, Copy, PartialEq, Eq, Structural)]
pub struct Timestamp {
    pub secs: i64,
    pub nanos: u32,
}

/// The instant chrono's `DateTime::parse_from_rfc3339` reads from a text, taken
/// in UTC as `(seconds since the epoch, sub-second nanoseconds)`; `None` when
/// chrono rejects the text.
pub uninterp spec fn rfc3339_instant(s: Seq<char>) -> Option<(i64, u32)>;

/// chrono's RFC 3339 rendering of an instant with microsecond precision and a
/// `Z` offset (`DateTime::from_timestamp`, then `to_rfc3339_opts(Micros,
/// true)`); `None` when chrono holds no instant that far from the epoch.
pub uninterp spec fn rfc3339_text(secs: i64, nanos: u32) -> Option<Seq<char>>;

/// `chrono::DateTime::parse_from_rfc3339`, converted to UTC and taken as
/// seconds plus sub-second nanoseconds.
#[verifier::external_body]
fn parse_rfc3339(s: &str) -> (r: Option<(i64, u32)>)
    ensures
        r == rfc3339_instant(s@),
{
    chrono::DateTime::parse_from_rfc3339(s)
        .ok()
        .map(|t| (t.timestamp(), t.timestamp_subsec_nanos()))
}

/// `chrono::DateTime::from_timestamp` followed by `to_rfc3339_opts` with
/// microseconds and `Z`.
#[verifier::external_body]
fn render_rfc3339(secs: i64, nanos: u32) -> (r: Option<String>)
    ensures
        match r {
            Some(t) => rfc3339_text(secs, nanos) == Some(t@),
            None => rfc3339_text(secs, nanos) is None,
        },
{
    chrono::DateTime::from_timestamp(secs, nanos)
        .map(|t| t.to_rfc3339_opts(chrono::SecondsFormat::Micros, true))
}

/// The message a stored timestamp that is not RFC 3339 is reported with.
pub open spec fn bad_timestamp_message(raw: Seq<char>) -> Seq<char> {
    "bad timestamp `"@ + raw + "`"@
}

/// The message an instant too far from the epoch to store is refused with.
pub open spec fn out_of_range_message() -> Seq<char> {
    "timestamp out of range"@
}

/// The instant a stored RFC 3339 text denotes; a text that is not one is a
/// database error naming it.
pub fn timestamp_value(raw: &str) -> (r: Result<Timestamp, StoreError>)
    ensures
        rfc3339_instant(raw@) matches Some(p) ==> r == Ok::<Timestamp, StoreError>(
            Timestamp { secs: p.0, nanos: p.1 },
        ),
        rfc3339_instant(raw@) is None ==> (r matches Err(StoreError::Db(m)) && m@
            == bad_timestamp_message(raw@)),
{
    match parse_rfc3339(raw) {
        Some((secs, nanos)) => Ok(Timestamp { secs, nanos }),
        None => {
            let mut out: Vec<char> = Vec::new();
            push_str(&mut out, "bad timestamp `");
            push_str(&mut out, raw);
            push_str(&mut out, "`");
            proof {
                reveal_strlit("bad timestamp `");
                reveal_strlit("`");
                assert(out@ =~= bad_timestamp_message(raw@));
            }
            Err(StoreError::Db(string_of(&out)))
        },
    }
}

/// The text an instant is stored as; an instant chrono cannot represent is
/// refused as invalid.
pub fn timestamp_text(t: Timestamp) -> (r: Result<String, StoreError>)
    ensures
        rfc3339_text(t.secs, t.nanos) matches Some(s) ==> (r matches Ok(x) && x@ == s),
        rfc3339_text(t.secs, t.nanos) is None ==> (r matches Err(StoreError::Invalid(m)) && m@
            == out_of_range_message()),
{
    match render_rfc3339(t.secs, t.nanos) {
        Some(s) => Ok(s),
        None => {
            let m = "timestamp out of range".to_string();
            proof {
                reveal_strlit("timestamp out of range");
            }
            Err(StoreError::Invalid(m))
        },
    }
}

} // verus!
