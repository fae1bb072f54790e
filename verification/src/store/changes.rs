//! The change ledger's logic: audit-read filters, the per-actor undo cursor
//! (a LIFO redo stack of undone change groups plus a CAS epoch), which group an
//! undo pops next, and the protocol that clears the redo stack after a fresh
//! edit.

use vstd::prelude::*;

verus! {

/// The operation a change row records.
#[derive(Debug, Clone, Copy, PartialEq, Eq, Structural)]
pub enum Op {
    Create,
    Update,
    Delete,
}

/// Filter for the audit read surface. Every field is an optional narrowing;
/// `None` matches all. The org is supplied separately and always enforced.
#[derive(Debug, Clone)]
pub struct ChangeFilter {
    pub kind: Option<String>,
    pub resource_id: Option<u128>,
    pub actor_subject: Option<String>,
    pub op: Option<Op>,
    /// Page size; zero or negative means [`ChangeFilter::DEFAULT_LIMIT`].
    pub limit: i64,
}

impl ChangeFilter {
    /// The page size when a caller does not cap explicitly.
    pub const DEFAULT_LIMIT: i64 = 200;

    /// The empty filter: every change of the org, default page size.
    pub fn all() -> (f: ChangeFilter)
        ensures
            f.kind is None,
            f.resource_id is None,
            f.actor_subject is None,
            f.op is None,
            f.limit == 0,
    {
        ChangeFilter { kind: None, resource_id: None, actor_subject: None, op: None, limit: 0 }
    }

    /// The filter for one resource's full timeline: its kind and id, at the
    /// default page size.
    pub fn for_resource(kind: String, id: u128) -> (f: ChangeFilter)
        ensures
            f.kind == Some(kind),
            f.resource_id == Some(id),
            f.actor_subject is None,
            f.op is None,
            f.limit == ChangeFilter::DEFAULT_LIMIT,
    {
        ChangeFilter {
            kind: Some(kind),
            resource_id: Some(id),
            actor_subject: None,
            op: None,
            limit: Self::DEFAULT_LIMIT,
        }
    }

    /// The number of rows a read returns at most: the caller's cap when
    /// positive, else the default.
    pub fn effective_limit(&self) -> (r: i64)
        ensures
            r == if self.limit > 0 {
                self.limit
            } else {
                ChangeFilter::DEFAULT_LIMIT
            },
            r > 0,
    {
        if self.limit > 0 {
            self.limit
        } else {
            Self::DEFAULT_LIMIT
        }
    }
}

/// A per-actor undo cursor: `redo_stack` is the LIFO of undone group ids,
/// `epoch` the compare-and-set guard.
#[derive(Debug, Clone)]
pub struct UndoCursor {
    pub redo_stack: Vec<u128>,
    pub epoch: i64,
}

impl UndoCursor {
    /// The cursor of an actor that has never undone anything.
    pub fn fresh() -> (c: UndoCursor)
        ensures
            c.redo_stack@ == Seq::<u128>::empty(),
            c.epoch == 0,
    {
        UndoCursor { redo_stack: Vec::new(), epoch: 0 }
    }
}

/// Whether `g` appears in `s`.
pub open spec fn holds(s: Seq<u128>, g: u128) -> bool {
    exists|i: int| 0 <= i < s.len() && s[i] == g
}

/// The first group of `groups` not in `undone`.
pub open spec fn spec_first_undoable(groups: Seq<u128>, undone: Seq<u128>) -> Option<u128>
    decreases groups.len(),
{
    if groups.len() == 0 {
        None
    } else if !holds(undone, groups[0]) {
        Some(groups[0])
    } else {
        spec_first_undoable(groups.drop_first(), undone)
    }
}

fn contains_group(undone: &Vec<u128>, g: u128) -> (r: bool)
    ensures
        r == holds(undone@, g),
{
    let mut i: usize = 0;
    while i < undone.len()
        invariant
            i <= undone.len(),
            forall|j: int| 0 <= j < i ==> undone@[j] != g,
        decreases undone.len() - i,
    {
        if undone[i] == g {
            return true;
        }
        i = i + 1;
    }
    false
}

proof fn lemma_first_undoable_skip(groups: Seq<u128>, undone: Seq<u128>, i: int)
    requires
        0 <= i <= groups.len(),
        forall|j: int| 0 <= j < i ==> holds(undone, #[trigger] groups[j]),
    ensures
        spec_first_undoable(groups, undone) == spec_first_undoable(groups.skip(i), undone),
    decreases i,
{
    if i > 0 {
        let t = groups.drop_first();
        assert(holds(undone, groups[0]));
        assert forall|j: int| 0 <= j < i - 1 implies holds(undone, #[trigger] t[j]) by {
            assert(t[j] == groups[j + 1]);
        }
        lemma_first_undoable_skip(t, undone, i - 1);
        assert(t.skip(i - 1) =~= groups.skip(i));
    } else {
        assert(groups.skip(0) =~= groups);
    }
}

/// One change row as the undo lookup reads it: its group and the subject of
/// the actor who made it.
#[derive(Debug, Clone)]
pub struct GroupRow {
    pub group_id: u128,
    pub actor_subject: String,
}

/// The groups of `rows` made by actor `subject`, in row order.
pub open spec fn spec_actor_groups(rows: Seq<GroupRow>, subject: Seq<char>) -> Seq<u128>
    decreases rows.len(),
{
    if rows.len() == 0 {
        Seq::empty()
    } else {
        let rest = spec_actor_groups(rows.drop_last(), subject);
        if rows.last().actor_subject@ == subject {
            rest.push(rows.last().group_id)
        } else {
            rest
        }
    }
}

fn actor_groups(rows: &Vec<GroupRow>, subject: &str) -> (r: Vec<u128>)
    ensures
        r@ == spec_actor_groups(rows@, subject@),
{
    let mut out: Vec<u128> = Vec::new();
    let mut i: usize = 0;
    while i < rows.len()
        invariant
            i <= rows@.len(),
            out@ == spec_actor_groups(rows@.take(i as int), subject@),
        decreases rows@.len() - i,
    {
        proof {
            assert(rows@.take(i + 1).drop_last() =~= rows@.take(i as int));
            assert(rows@.take(i + 1).last() == rows@[i as int]);
        }
        if crate::text::str_eq(rows[i].actor_subject.as_str(), subject) {
            out.push(rows[i].group_id);
        }
        i = i + 1;
    }
    proof {
        assert(rows@.take(rows@.len() as int) =~= rows@);
    }
    out
}

fn first_undoable(groups_newest_first: &Vec<u128>, undone: &Vec<u128>) -> (r: Option<u128>)
    ensures
        r == spec_first_undoable(groups_newest_first@, undone@),
{
    let mut i: usize = 0;
    while i < groups_newest_first.len()
        invariant
            i <= groups_newest_first.len(),
            forall|j: int|
                0 <= j < i ==> holds(undone@, #[trigger] groups_newest_first@[j]),
        decreases groups_newest_first.len() - i,
    {
        let g = groups_newest_first[i];
        if !contains_group(undone, g) {
            proof {
                lemma_first_undoable_skip(groups_newest_first@, undone@, i as int);
                assert(groups_newest_first@.skip(i as int)[0] == g);
            }
            return Some(g);
        }
        i = i + 1;
    }
    proof {
        lemma_first_undoable_skip(
            groups_newest_first@,
            undone@,
            groups_newest_first.len() as int,
        );
    }
    None
}

/// The group an undo pops next for actor `subject`: among the org's change
/// rows (newest first), the first group that actor made which is not already on
/// its redo stack; `None` when the actor has nothing left to undo. Another
/// actor's groups never count.
pub fn newest_undoable_group(rows_newest_first: &Vec<GroupRow>, subject: &str, undone: &Vec<u128>) -> (r:
    Option<u128>)
    ensures
        r == spec_first_undoable(spec_actor_groups(rows_newest_first@, subject@), undone@),
{
    let groups = actor_groups(rows_newest_first, subject);
    first_undoable(&groups, undone)
}

proof fn lemma_actor_groups_from_actor(rows: Seq<GroupRow>, subject: Seq<char>, k: int)
    requires
        0 <= k < spec_actor_groups(rows, subject).len(),
    ensures
        exists|i: int|
            0 <= i < rows.len() && rows[i].actor_subject@ == subject && #[trigger] rows[i].group_id
                == spec_actor_groups(rows, subject)[k],
    decreases rows.len(),
{
    let rest = spec_actor_groups(rows.drop_last(), subject);
    if k < rest.len() {
        lemma_actor_groups_from_actor(rows.drop_last(), subject, k);
        let i = choose|i: int|
            0 <= i < rows.drop_last().len() && rows.drop_last()[i].actor_subject@ == subject
                && #[trigger] rows.drop_last()[i].group_id == rest[k];
        assert(rows[i] == rows.drop_last()[i]);
    } else {
        assert(rows[rows.len() - 1] == rows.last());
    }
}

/// How many of the actor's groups the first `i` rows hold.
spec fn actor_count(rows: Seq<GroupRow>, subject: Seq<char>, i: int) -> int {
    spec_actor_groups(rows.take(i), subject).len() as int
}

proof fn lemma_actor_groups_prefix(rows: Seq<GroupRow>, subject: Seq<char>, i: int)
    requires
        0 <= i <= rows.len(),
    ensures
        spec_actor_groups(rows.take(i), subject).len() <= spec_actor_groups(rows, subject).len(),
        spec_actor_groups(rows.take(i), subject) == spec_actor_groups(rows, subject).take(
            spec_actor_groups(rows.take(i), subject).len() as int,
        ),
    decreases rows.len(),
{
    let full = spec_actor_groups(rows, subject);
    if i == rows.len() {
        assert(rows.take(i) =~= rows);
        assert(full.take(full.len() as int) =~= full);
    } else {
        let init = rows.drop_last();
        assert(rows.take(i) =~= init.take(i));
        lemma_actor_groups_prefix(init, subject, i);
        let part = spec_actor_groups(init.take(i), subject);
        let rest = spec_actor_groups(init, subject);
        assert(full.take(part.len() as int) =~= rest.take(part.len() as int));
    }
}

proof fn lemma_actor_row_step(rows: Seq<GroupRow>, subject: Seq<char>, i: int)
    requires
        0 <= i < rows.len(),
    ensures
        spec_actor_groups(rows.take(i + 1), subject) == if rows[i].actor_subject@ == subject {
            spec_actor_groups(rows.take(i), subject).push(rows[i].group_id)
        } else {
            spec_actor_groups(rows.take(i), subject)
        },
{
    assert(rows.take(i + 1).drop_last() =~= rows.take(i));
    assert(rows.take(i + 1).last() == rows[i]);
}

/// Every row the actor made is at its place among the actor's groups.
proof fn lemma_actor_row_listed(rows: Seq<GroupRow>, subject: Seq<char>, i: int)
    requires
        0 <= i < rows.len(),
        rows[i].actor_subject@ == subject,
    ensures
        actor_count(rows, subject, i) < spec_actor_groups(rows, subject).len(),
        spec_actor_groups(rows, subject)[actor_count(rows, subject, i)] == rows[i].group_id,
        actor_count(rows, subject, i + 1) == actor_count(rows, subject, i) + 1,
{
    lemma_actor_row_step(rows, subject, i);
    lemma_actor_groups_prefix(rows, subject, i + 1);
    let c = actor_count(rows, subject, i);
    assert(spec_actor_groups(rows.take(i + 1), subject)[c] == rows[i].group_id);
}

/// Each of the actor's groups comes from one of the actor's rows, at the place
/// the rows before it give.
proof fn lemma_actor_group_source(rows: Seq<GroupRow>, subject: Seq<char>, k: int)
    requires
        0 <= k < spec_actor_groups(rows, subject).len(),
    ensures
        exists|i: int|
            0 <= i < rows.len() && rows[i].actor_subject@ == subject && #[trigger] actor_count(
                rows,
                subject,
                i,
            ) == k && rows[i].group_id == spec_actor_groups(rows, subject)[k],
    decreases rows.len(),
{
    let init = rows.drop_last();
    let rest = spec_actor_groups(init, subject);
    let n = rows.len() - 1;
    if k < rest.len() {
        lemma_actor_group_source(init, subject, k);
        let i = choose|i: int|
            0 <= i < init.len() && init[i].actor_subject@ == subject && #[trigger] actor_count(
                init,
                subject,
                i,
            ) == k && init[i].group_id == rest[k];
        assert(rows.take(i) =~= init.take(i));
        assert(rows[i] == init[i]);
        assert(actor_count(rows, subject, i) == k);
    } else {
        assert(rows.take(n) =~= init);
        assert(rows[n] == rows.last());
        assert(actor_count(rows, subject, n) == k);
    }
}

proof fn lemma_actor_count_grows(rows: Seq<GroupRow>, subject: Seq<char>, j: int, i: int)
    requires
        0 <= j < i <= rows.len(),
        rows[j].actor_subject@ == subject,
    ensures
        actor_count(rows, subject, j) < actor_count(rows, subject, i),
{
    lemma_actor_row_listed(rows, subject, j);
    let t = rows.take(i);
    assert(t.take(j + 1) =~= rows.take(j + 1));
    lemma_actor_groups_prefix(t, subject, j + 1);
}

/// What an undo pops, over all of the org's rows (newest first): the group of
/// the newest row the actor made whose group is not yet undone — every newer
/// row of that actor is already undone, and rows of other actors never count;
/// nothing only when every group the actor made is undone.
pub proof fn law_newest_undoable_group(rows: Seq<GroupRow>, subject: Seq<char>, undone: Seq<u128>)
    ensures
        match spec_first_undoable(spec_actor_groups(rows, subject), undone) {
            Some(g) => exists|i: int|
                0 <= i < rows.len() && #[trigger] rows[i].group_id == g && rows[i].actor_subject@
                    == subject && !holds(undone, g) && forall|j: int|
                    0 <= j < i && rows[j].actor_subject@ == subject ==> holds(
                        undone,
                        #[trigger] rows[j].group_id,
                    ),
            None => forall|i: int|
                0 <= i < rows.len() && rows[i].actor_subject@ == subject ==> holds(
                    undone,
                    #[trigger] rows[i].group_id,
                ),
        },
{
    let groups = spec_actor_groups(rows, subject);
    law_first_undoable_is_newest_not_undone(groups, undone);
    match spec_first_undoable(groups, undone) {
        Some(g) => {
            let k = choose|k: int|
                0 <= k < groups.len() && groups[k] == g && !holds(undone, g) && (forall|j: int|
                    0 <= j < k ==> holds(undone, #[trigger] groups[j]));
            lemma_actor_group_source(rows, subject, k);
            let i = choose|i: int|
                0 <= i < rows.len() && rows[i].actor_subject@ == subject && #[trigger] actor_count(
                    rows,
                    subject,
                    i,
                ) == k && rows[i].group_id == groups[k];
            assert forall|j: int| 0 <= j < i && rows[j].actor_subject@ == subject implies holds(
                undone,
                #[trigger] rows[j].group_id,
            ) by {
                lemma_actor_count_grows(rows, subject, j, i);
                lemma_actor_row_listed(rows, subject, j);
                assert(groups[actor_count(rows, subject, j)] == rows[j].group_id);
            }
        },
        None => {
            assert forall|i: int| 0 <= i < rows.len() && rows[i].actor_subject@ == subject implies holds(
                undone,
                #[trigger] rows[i].group_id,
            ) by {
                lemma_actor_row_listed(rows, subject, i);
                assert(groups[actor_count(rows, subject, i)] == rows[i].group_id);
            }
        },
    }
}

/// Undo is per actor: the group an undo pops for `subject` is always one that
/// `subject` made.
pub proof fn law_undo_is_per_actor(rows: Seq<GroupRow>, subject: Seq<char>, undone: Seq<u128>)
    ensures
        spec_first_undoable(spec_actor_groups(rows, subject), undone) matches Some(g) ==> exists|
            i: int,
        | 0 <= i < rows.len() && rows[i].actor_subject@ == subject && #[trigger] rows[i].group_id
            == g,
{
    let groups = spec_actor_groups(rows, subject);
    law_first_undoable_is_newest_not_undone(groups, undone);
    if let Some(g) = spec_first_undoable(groups, undone) {
        let k = choose|k: int| 0 <= k < groups.len() && groups[k] == g && !holds(undone, g) && (
        forall|j: int| 0 <= j < k ==> holds(undone, #[trigger] groups[j]));
        lemma_actor_groups_from_actor(rows, subject, k);
    }
}

/// What `newest_undoable_group` finds: a group that is not undone, with every
/// newer group already undone; or nothing, when every group is undone.
pub proof fn law_first_undoable_is_newest_not_undone(groups: Seq<u128>, undone: Seq<u128>)
    ensures
        match spec_first_undoable(groups, undone) {
            Some(g) => exists|i: int|
                0 <= i < groups.len() && groups[i] == g && !holds(undone, g) && (forall|j: int|
                    0 <= j < i ==> holds(undone, #[trigger] groups[j])),
            None => forall|j: int| 0 <= j < groups.len() ==> holds(undone, #[trigger] groups[j]),
        },
    decreases groups.len(),
{
    if groups.len() > 0 {
        let t = groups.drop_first();
        law_first_undoable_is_newest_not_undone(t, undone);
        if holds(undone, groups[0]) {
            match spec_first_undoable(t, undone) {
                Some(g) => {
                    let i = choose|i: int|
                        0 <= i < t.len() && t[i] == g && !holds(undone, g) && (forall|j: int|
                            0 <= j < i ==> holds(undone, #[trigger] t[j]));
                    assert(groups[i + 1] == g);
                    assert forall|j: int| 0 <= j < i + 1 implies holds(
                        undone,
                        #[trigger] groups[j],
                    ) by {
                        if j > 0 {
                            assert(groups[j] == t[j - 1]);
                        }
                    }
                },
                None => {
                    assert forall|j: int| 0 <= j < groups.len() implies holds(
                        undone,
                        #[trigger] groups[j],
                    ) by {
                        if j > 0 {
                            assert(groups[j] == t[j - 1]);
                        }
                    }
                },
            }
        }
    }
}

/// Where the redo-clearing protocol stands.
#[derive(Debug, Clone, Copy, PartialEq, Eq, Structural)]
pub enum ClearRedo {
    /// Nothing issued yet.
    Begin,
    /// Waiting for the pre-check read of the cursor.
    Checking,
    /// Waiting for the cursor read of attempt `attempt` (0 or 1).
    Reading { attempt: u8 },
    /// Waiting for the compare-and-set of attempt `attempt`.
    Swapping { attempt: u8 },
    /// The protocol has ended.
    Finished,
}

/// What the store answered the last request with.
#[derive(Debug, Clone)]
pub enum ClearRedoEvent {
    /// The protocol is being started.
    Started,
    /// A cursor read returned this cursor.
    Cursor(UndoCursor),
    /// A compare-and-set to the empty stack applied (`true`) or lost a race.
    Swapped(bool),
}

/// What the store is asked to do next.
#[derive(Debug, Clone, Copy, PartialEq, Eq, Structural)]
pub enum ClearRedoAction {
    /// Read the actor's cursor.
    ReadCursor,
    /// Compare-and-set the cursor to the empty stack, expecting `epoch`.
    ClearFrom { epoch: i64 },
    /// Done.
    Stop,
}

/// The next state and request of the redo-clearing protocol: a fresh edit
/// invalidates every undone group, so the redo stack is emptied by a CAS that
/// is retried once on contention; an empty stack ends it at once.
pub open spec fn spec_clear_redo_step(state: ClearRedo, event: ClearRedoEvent) -> (
    ClearRedo,
    ClearRedoAction,
) {
    match (state, event) {
        (ClearRedo::Begin, ClearRedoEvent::Started) => (
            ClearRedo::Checking,
            ClearRedoAction::ReadCursor,
        ),
        (ClearRedo::Checking, ClearRedoEvent::Cursor(c)) => if c.redo_stack@.len() == 0 {
            (ClearRedo::Finished, ClearRedoAction::Stop)
        } else {
            (ClearRedo::Reading { attempt: 0 }, ClearRedoAction::ReadCursor)
        },
        (ClearRedo::Reading { attempt }, ClearRedoEvent::Cursor(c)) => if c.redo_stack@.len()
            == 0 {
            (ClearRedo::Finished, ClearRedoAction::Stop)
        } else {
            (ClearRedo::Swapping { attempt }, ClearRedoAction::ClearFrom { epoch: c.epoch })
        },
        (ClearRedo::Swapping { attempt }, ClearRedoEvent::Swapped(applied)) => if applied
            || attempt >= 1 {
            (ClearRedo::Finished, ClearRedoAction::Stop)
        } else {
            (ClearRedo::Reading { attempt: 1 }, ClearRedoAction::ReadCursor)
        },
        _ => (ClearRedo::Finished, ClearRedoAction::Stop),
    }
}

/// One step of the redo-clearing protocol.
pub fn clear_redo_step(state: ClearRedo, event: &ClearRedoEvent) -> (r: (ClearRedo, ClearRedoAction))
    ensures
        r == spec_clear_redo_step(state, *event),
{
    match (state, event) {
        (ClearRedo::Begin, ClearRedoEvent::Started) => (
            ClearRedo::Checking,
            ClearRedoAction::ReadCursor,
        ),
        (ClearRedo::Checking, ClearRedoEvent::Cursor(c)) => {
            if c.redo_stack.len() == 0 {
                (ClearRedo::Finished, ClearRedoAction::Stop)
            } else {
                (ClearRedo::Reading { attempt: 0 }, ClearRedoAction::ReadCursor)
            }
        },
        (ClearRedo::Reading { attempt }, ClearRedoEvent::Cursor(c)) => {
            if c.redo_stack.len() == 0 {
                (ClearRedo::Finished, ClearRedoAction::Stop)
            } else {
                (ClearRedo::Swapping { attempt }, ClearRedoAction::ClearFrom { epoch: c.epoch })
            }
        },
        (ClearRedo::Swapping { attempt }, ClearRedoEvent::Swapped(applied)) => {
            if *applied || attempt >= 1 {
                (ClearRedo::Finished, ClearRedoAction::Stop)
            } else {
                (ClearRedo::Reading { attempt: 1 }, ClearRedoAction::ReadCursor)
            }
        },
        _ => (ClearRedo::Finished, ClearRedoAction::Stop),
    }
}

/// How many steps the protocol can still take from a state before it ends.
pub open spec fn clear_redo_budget(state: ClearRedo) -> nat {
    match state {
        ClearRedo::Begin => 6,
        ClearRedo::Checking => 5,
        ClearRedo::Reading { attempt } => if attempt == 0 {
            4
        } else {
            2
        },
        ClearRedo::Swapping { attempt } => if attempt == 0 {
            3
        } else {
            1
        },
        ClearRedo::Finished => 0,
    }
}

/// The protocol always ends: every step spends its budget, so from the start it
/// makes at most five store requests (a read, then read and CAS twice) before
/// it stops.
pub proof fn law_clear_redo_terminates(state: ClearRedo, event: ClearRedoEvent)
    requires
        state !is Finished,
        state matches ClearRedo::Reading { attempt } ==> attempt <= 1,
        state matches ClearRedo::Swapping { attempt } ==> attempt <= 1,
    ensures
        ({
            let (next, action) = spec_clear_redo_step(state, event);
            &&& action is Stop <==> next is Finished
            &&& clear_redo_budget(next) < clear_redo_budget(state)
            &&& next matches ClearRedo::Reading { attempt } ==> attempt <= 1
            &&& next matches ClearRedo::Swapping { attempt } ==> attempt <= 1
        }),
{
}

/// The protocol stops only when a read shows an empty redo stack, a CAS to the
/// empty stack applied, the one retry was spent, or the store answered out of
/// turn; and it attempts a CAS only against the epoch it just read.
pub proof fn law_clear_redo_stops_only_when_cleared(state: ClearRedo, event: ClearRedoEvent)
    ensures
        ({
            let (next, action) = spec_clear_redo_step(state, event);
            &&& (action is Stop && state is Checking && event is Cursor) ==> event->Cursor_0.redo_stack@.len() == 0
            &&& (action is Stop && state is Reading && event is Cursor) ==> event->Cursor_0.redo_stack@.len() == 0
            &&& (action is Stop && state is Swapping && event is Swapped) ==> (event->Swapped_0
                || state->Swapping_attempt >= 1)
            &&& action matches ClearRedoAction::ClearFrom { epoch } ==> (event is Cursor
                && event->Cursor_0.epoch == epoch && event->Cursor_0.redo_stack@.len() > 0)
        }),
{
}

} // verus!
