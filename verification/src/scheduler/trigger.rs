//! What fires a stored board: on demand (`Manual`), on a fixed cadence
//! (`Interval`), or whenever a `cur` value arrives on a subscribed keyexpr
//! (`Subscription`).

use vstd::prelude::*;

use crate::text::{is_blank, spec_is_blank};

verus! {

broadcast use vstd::string::group_string_axioms;

/// How the scheduler decides to evaluate a board.
#[derive(Debug, Clone, PartialEq, Eq)]
pub enum Trigger {
    /// Never fired by the scheduler; only an explicit run request runs it.
    Manual,
    /// Fire every `seconds`; at least one second.
    Interval { seconds: u64 },
    /// Fire whenever a `cur` sample is published on a keyexpr matching `key`,
    /// which may be a wildcard (`nube/hq/*/temp/cur`).
    Subscription { key: String },
}

/// The message a rejected interval trigger carries.
pub open spec fn interval_message() -> Seq<char> {
    "interval trigger requires seconds >= 1"@
}

/// The message a rejected subscription trigger carries.
pub open spec fn subscription_message() -> Seq<char> {
    "subscription trigger requires a non-empty key"@
}

impl Trigger {
    /// A trigger configuration that can be persisted: an interval of at least
    /// one second, a subscription key with something besides whitespace.
    pub open spec fn spec_valid(&self) -> bool {
        match self {
            Trigger::Manual => true,
            Trigger::Interval { seconds } => *seconds >= 1,
            Trigger::Subscription { key } => !spec_is_blank(key@),
        }
    }

    /// Reject nonsensical trigger config before persistence. An interval of
    /// zero would spin; an empty subscription key matches nothing.
    pub fn validate(&self) -> (r: Result<(), String>)
        ensures
            r is Ok <==> self.spec_valid(),
            r matches Err(m) ==> (self matches Trigger::Interval { .. } && m@ == interval_message())
                || (self matches Trigger::Subscription { .. } && m@ == subscription_message()),
    {
        match self {
            Trigger::Manual => Ok(()),
            Trigger::Interval { seconds } => {
                if *seconds == 0 {
                    Err("interval trigger requires seconds >= 1".to_string())
                } else {
                    Ok(())
                }
            },
            Trigger::Subscription { key } => {
                if is_blank(key.as_str()) {
                    Err("subscription trigger requires a non-empty key".to_string())
                } else {
                    Ok(())
                }
            },
        }
    }

    /// Whether the trigger lets the scheduler drive the board (not manual).
    pub open spec fn spec_is_automatic(&self) -> bool {
        !(self matches Trigger::Manual)
    }
}

/// What validation accepts, for every input: a manual trigger always; an
/// interval of any length of at least one second (only zero is refused); a
/// subscription whose key has a character other than whitespace.
pub proof fn law_trigger_validity(seconds: u64, key: String)
    ensures
        Trigger::Manual.spec_valid(),
        (Trigger::Interval { seconds }).spec_valid() <==> seconds != 0,
        (Trigger::Subscription { key }).spec_valid() <==> exists|i: int|
            0 <= i < key@.len() && !crate::text::spec_is_whitespace(#[trigger] key@[i]),
{
}

} // verus!
