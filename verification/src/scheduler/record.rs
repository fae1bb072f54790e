//! A stored board: the flow graph plus the scheduling metadata the supervisory
//! backend needs to fire it. `slug` + `version` are unique within a scope, so a
//! board can be republished without losing prior versions.

use vstd::prelude::*;

use super::trigger::Trigger;
use crate::store::timestamps::Timestamp;

verus! {

/// One persisted, versioned board.
#[derive(Debug, Clone)]
pub struct BoardRecord {
    pub id: u128,
    /// Owning org namespace (the tenant key). Always set.
    pub org: String,
    /// The single site this flow is for; `None` makes it an org-level flow.
    pub site_id: Option<u128>,
    /// Stable name across versions; unique per scope `(org, site_id, slug)`.
    pub slug: String,
    pub version: i64,
    pub display_name: String,
    /// When false the scheduler ignores the board even if its trigger fires.
    pub enabled: bool,
    pub trigger: Trigger,
    /// The flow graph, JSON-encoded.
    pub graph: String,
    /// Creation instant.
    pub created_at: Timestamp,
}

impl BoardRecord {
    /// The scheduler drives the board: it is enabled and not manual.
    pub open spec fn spec_is_scheduled(&self) -> bool {
        self.enabled && self.trigger.spec_is_automatic()
    }

    /// True if the scheduler should drive this board (enabled and not manual).
    pub fn is_scheduled(&self) -> (r: bool)
        ensures
            r == self.spec_is_scheduled(),
    {
        self.enabled && !matches!(self.trigger, Trigger::Manual)
    }
}

} // verus!
