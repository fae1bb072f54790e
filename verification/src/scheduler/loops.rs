//! The scheduler's decisions: a board's stable identity across versions, how a
//! board is (re-)registered, the table of live loops keyed by that identity,
//! and what a subscription loop does with each thing that happens to it.

use vstd::prelude::*;

use super::record::BoardRecord;
use super::trigger::Trigger;
use crate::text::{push_str, push_uuid, spec_uuid_text, string_of};

verus! {

broadcast use vstd::string::group_string_axioms;

/// A board's stable identity across versions: `(org, site_id, slug)`. The row
/// id changes on every republish, so loops and node state key on this.
#[derive(Debug, Clone)]
pub struct BoardKey {
    pub org: String,
    pub site_id: Option<u128>,
    pub slug: String,
}

/// A board identity as values.
pub struct KeyView {
    pub org: Seq<char>,
    pub site_id: Option<u128>,
    pub slug: Seq<char>,
}

impl View for BoardKey {
    type V = KeyView;

    open spec fn view(&self) -> KeyView {
        KeyView { org: self.org@, site_id: self.site_id, slug: self.slug@ }
    }
}

/// The stable key of a board record.
pub fn board_key(board: &BoardRecord) -> (k: BoardKey)
    ensures
        k@ == (KeyView { org: board.org@, site_id: board.site_id, slug: board.slug@ }),
{
    BoardKey { org: board.org.clone(), site_id: board.site_id, slug: board.slug.clone() }
}

/// Whether two board identities are the same.
pub fn same_key(a: &BoardKey, b: &BoardKey) -> (r: bool)
    ensures
        r == (a@ == b@),
{
    let site_eq = match (a.site_id, b.site_id) {
        (Some(x), Some(y)) => x == y,
        (None, None) => true,
        _ => false,
    };
    a.org == b.org && site_eq && a.slug == b.slug
}

/// The unit separator that joins the parts of a node-state key.
pub open spec fn unit_separator() -> char {
    '\u{1f}'
}

/// The stable key rendered for node-state scoping: org, site id (hyphenated,
/// empty for an org-level board) and slug, separated by U+001F.
pub open spec fn spec_board_state_key(org: Seq<char>, site_id: Option<u128>, slug: Seq<char>) -> Seq<
    char,
> {
    org + seq![unit_separator()] + (match site_id {
        Some(s) => spec_uuid_text(s),
        None => Seq::empty(),
    }) + seq![unit_separator()] + slug
}

/// The stable key rendered for node-state scoping (the store's `board_id`
/// column and the in-memory session map). Stable across versions.
pub fn board_state_key(org: &str, site_id: Option<u128>, slug: &str) -> (r: String)
    ensures
        r@ == spec_board_state_key(org@, site_id, slug@),
{
    let mut out: Vec<char> = Vec::new();
    push_str(&mut out, org);
    out.push('\u{1f}');
    match site_id {
        Some(s) => push_uuid(&mut out, s),
        None => {},
    }
    out.push('\u{1f}');
    push_str(&mut out, slug);
    proof {
        assert(out@ =~= spec_board_state_key(org@, site_id, slug@));
    }
    string_of(&out)
}

/// Boards with the same identity share a node-state key across versions: the
/// key reads only `(org, site_id, slug)`, never the row id or version.
pub proof fn law_state_key_stable_across_versions(a: BoardRecord, b: BoardRecord)
    requires
        a.org@ == b.org@,
        a.site_id == b.site_id,
        a.slug@ == b.slug@,
    ensures
        spec_board_state_key(a.org@, a.site_id, a.slug@) == spec_board_state_key(
            b.org@,
            b.site_id,
            b.slug@,
        ),
{
}

/// How (re-)registering a board changes its loop. Every plan first cancels the
/// loop already running for the board's identity, if any.
#[derive(Debug, Clone)]
pub enum Registration {
    /// The board is manual or disabled: leave no loop running.
    Stop,
    /// Start a loop firing every `seconds`.
    StartInterval { seconds: u64 },
    /// Start a loop firing on each sample of keyexpr `key`.
    StartSubscription { key: String },
    /// A subscription board, but no data-plane session to subscribe with: leave
    /// no loop running (the board is skipped with a warning).
    SkipNoBus,
}

/// The registration plan for a board, given whether a data-plane session exists.
pub open spec fn spec_plan(board: BoardRecord, has_bus: bool) -> Registration {
    if !board.spec_is_scheduled() {
        Registration::Stop
    } else {
        match board.trigger {
            Trigger::Manual => Registration::Stop,
            Trigger::Interval { seconds } => Registration::StartInterval { seconds },
            Trigger::Subscription { key } => if has_bus {
                Registration::StartSubscription { key }
            } else {
                Registration::SkipNoBus
            },
        }
    }
}

/// Decide how to (re-)register a board's loop. A non-scheduled (manual or
/// disabled) board is stopped; an interval board gets an interval loop; a
/// subscription board gets a subscription loop when a session exists and is
/// skipped otherwise.
pub fn plan_registration(board: &BoardRecord, has_bus: bool) -> (r: Registration)
    ensures
        r == spec_plan(*board, has_bus),
{
    if !board.is_scheduled() {
        return Registration::Stop;
    }
    match &board.trigger {
        Trigger::Manual => Registration::Stop,
        Trigger::Interval { seconds } => Registration::StartInterval { seconds: *seconds },
        Trigger::Subscription { key } => {
            if has_bus {
                Registration::StartSubscription { key: key.clone() }
            } else {
                Registration::SkipNoBus
            }
        },
    }
}

/// Only an enabled, non-manual board is ever given a loop, and its loop
/// matches its trigger.
pub proof fn law_loops_only_for_scheduled_boards(board: BoardRecord, has_bus: bool)
    ensures
        (spec_plan(board, has_bus) is StartInterval || spec_plan(board, has_bus) is StartSubscription)
            ==> board.spec_is_scheduled(),
        spec_plan(board, has_bus) matches Registration::StartInterval { seconds } ==> board.trigger
            == (Trigger::Interval { seconds }),
        spec_plan(board, has_bus) matches Registration::StartSubscription { key } ==> (has_bus
            && board.trigger == (Trigger::Subscription { key })),
{
}

/// What happened to a subscription loop.
#[derive(Debug, Clone, Copy, PartialEq, Eq, Structural)]
pub enum SubscriptionEvent {
    /// Declaring the watch on the key failed.
    WatchFailed,
    /// A `cur` sample arrived on the watched key.
    Sample,
    /// The watch stream closed.
    StreamClosed,
    /// The board's latest version was read back; `scheduled` says whether it is
    /// still enabled and not manual.
    BoardLoaded { scheduled: bool },
    /// Reading the board back failed.
    LookupFailed,
    /// The shutdown switch changed; `stop` is its new value.
    ShutdownChanged { stop: bool },
}

/// What a subscription loop does next.
#[derive(Debug, Clone, Copy, PartialEq, Eq, Structural)]
pub enum SubscriptionAction {
    /// End the loop.
    Stop,
    /// Re-read the board's latest version (so a republish takes effect).
    LoadBoard,
    /// Run the board's graph.
    Evaluate,
    /// Keep waiting for the next sample or shutdown signal.
    Wait,
}

/// The subscription loop's reaction to an event.
pub open spec fn spec_subscription_step(event: SubscriptionEvent) -> SubscriptionAction {
    match event {
        SubscriptionEvent::WatchFailed => SubscriptionAction::Stop,
        SubscriptionEvent::Sample => SubscriptionAction::LoadBoard,
        SubscriptionEvent::StreamClosed => SubscriptionAction::Stop,
        SubscriptionEvent::BoardLoaded { scheduled } => if scheduled {
            SubscriptionAction::Evaluate
        } else {
            SubscriptionAction::Wait
        },
        SubscriptionEvent::LookupFailed => SubscriptionAction::Wait,
        SubscriptionEvent::ShutdownChanged { stop } => if stop {
            SubscriptionAction::Stop
        } else {
            SubscriptionAction::Wait
        },
    }
}

/// Drive one subscription board: a failed watch or a closed stream ends the
/// loop (the board simply won't fire); each sample re-reads the board and
/// runs it only if it is still scheduled; a failed read is logged and skipped;
/// the shutdown switch ends the loop once it reads `true`.
pub fn subscription_step(event: SubscriptionEvent) -> (a: SubscriptionAction)
    ensures
        a == spec_subscription_step(event),
{
    match event {
        SubscriptionEvent::WatchFailed => SubscriptionAction::Stop,
        SubscriptionEvent::Sample => SubscriptionAction::LoadBoard,
        SubscriptionEvent::StreamClosed => SubscriptionAction::Stop,
        SubscriptionEvent::BoardLoaded { scheduled } => {
            if scheduled {
                SubscriptionAction::Evaluate
            } else {
                SubscriptionAction::Wait
            }
        },
        SubscriptionEvent::LookupFailed => SubscriptionAction::Wait,
        SubscriptionEvent::ShutdownChanged { stop } => {
            if stop {
                SubscriptionAction::Stop
            } else {
                SubscriptionAction::Wait
            }
        },
    }
}

/// A subscription loop runs a board only when the freshly read version is
/// still scheduled.
pub proof fn law_subscription_evaluates_only_scheduled(event: SubscriptionEvent)
    ensures
        spec_subscription_step(event) is Evaluate <==> event == (SubscriptionEvent::BoardLoaded {
            scheduled: true,
        }),
{
}


/// One live loop: the board identity it drives and its handle.
struct Slot<T> {
    key: BoardKey,
    task: T,
}

/// The live loops, at most one per board identity.
pub struct LoopTable<T> {
    slots: Vec<Slot<T>>,
}

spec fn keys_distinct<T>(slots: Seq<Slot<T>>) -> bool {
    forall|i: int, j: int| 0 <= i < j < slots.len() ==> slots[i].key@ != slots[j].key@
}

spec fn find<T>(slots: Seq<Slot<T>>, k: KeyView) -> Option<T> {
    if exists|i: int| 0 <= i < slots.len() && slots[i].key@ == k {
        Some(slots[choose|i: int| 0 <= i < slots.len() && slots[i].key@ == k].task)
    } else {
        None
    }
}

proof fn lemma_find_at<T>(slots: Seq<Slot<T>>, i: int)
    requires
        keys_distinct(slots),
        0 <= i < slots.len(),
    ensures
        find(slots, slots[i].key@) == Some(slots[i].task),
{
    let k = choose|k: int| 0 <= k < slots.len() && slots[k].key@ == slots[i].key@;
    if k != i {
        if k < i {
            assert(slots[k].key@ != slots[i].key@);
        } else {
            assert(slots[i].key@ != slots[k].key@);
        }
    }
}

proof fn lemma_find_remove<T>(slots: Seq<Slot<T>>, i: int, k: KeyView)
    requires
        keys_distinct(slots),
        0 <= i < slots.len(),
    ensures
        keys_distinct(slots.remove(i)),
        k != slots[i].key@ ==> find(slots.remove(i), k) == find(slots, k),
        k == slots[i].key@ ==> find(slots.remove(i), k) is None,
{
    let r = slots.remove(i);
    assert forall|a: int, b: int| 0 <= a < b < r.len() implies r[a].key@ != r[b].key@ by {
        let a2 = if a < i { a } else { a + 1 };
        let b2 = if b < i { b } else { b + 1 };
        assert(r[a] == slots[a2]);
        assert(r[b] == slots[b2]);
    }
    if k == slots[i].key@ {
        assert forall|m: int| 0 <= m < r.len() implies r[m].key@ != k by {
            let m2 = if m < i { m } else { m + 1 };
            assert(r[m] == slots[m2]);
            if m2 < i {
                assert(slots[m2].key@ != slots[i].key@);
            } else {
                assert(slots[i].key@ != slots[m2].key@);
            }
        }
    } else if exists|m: int| 0 <= m < slots.len() && slots[m].key@ == k {
        let m = choose|m: int| 0 <= m < slots.len() && slots[m].key@ == k;
        lemma_find_at(slots, m);
        let m2 = if m < i { m } else { m - 1 };
        assert(r[m2] == slots[m]);
        lemma_find_at(r, m2);
    } else {
        assert forall|m: int| 0 <= m < r.len() implies r[m].key@ != k by {
            let m2 = if m < i { m } else { m + 1 };
            assert(r[m] == slots[m2]);
        }
    }
}

proof fn lemma_find_push<T>(slots: Seq<Slot<T>>, s: Slot<T>, k: KeyView)
    requires
        keys_distinct(slots),
        forall|i: int| 0 <= i < slots.len() ==> slots[i].key@ != s.key@,
    ensures
        keys_distinct(slots.push(s)),
        find(slots.push(s), k) == if k == s.key@ {
            Some(s.task)
        } else {
            find(slots, k)
        },
{
    let p = slots.push(s);
    assert forall|a: int, b: int| 0 <= a < b < p.len() implies p[a].key@ != p[b].key@ by {
        if b == slots.len() {
            assert(p[a] == slots[a]);
        }
    }
    if k == s.key@ {
        lemma_find_at(p, slots.len() as int);
    } else if exists|m: int| 0 <= m < slots.len() && slots[m].key@ == k {
        let m = choose|m: int| 0 <= m < slots.len() && slots[m].key@ == k;
        lemma_find_at(slots, m);
        assert(p[m] == slots[m]);
        lemma_find_at(p, m);
    } else {
        assert forall|m: int| 0 <= m < p.len() implies p[m].key@ != k by {
            if m < slots.len() {
                assert(p[m] == slots[m]);
            }
        }
    }
}

/// The identity of a board, as values.
pub open spec fn key_of(board: BoardRecord) -> KeyView {
    KeyView { org: board.org@, site_id: board.site_id, slug: board.slug@ }
}

/// Whether a plan starts a loop.
pub open spec fn starts_loop(p: Registration) -> bool {
    p is StartInterval || p is StartSubscription
}

/// The loop that launching over `boards` leaves for identity `k`: the plan of
/// the last scheduled board with that identity, when that plan starts a loop.
/// Manual and disabled boards are skipped and cancel nothing; a scheduled
/// subscription board without a session cancels an earlier one's loop.
pub open spec fn spec_launch(boards: Seq<BoardRecord>, has_bus: bool, k: KeyView) -> Option<
    Registration,
>
    decreases boards.len(),
{
    if boards.len() == 0 {
        None
    } else if boards.last().spec_is_scheduled() && key_of(boards.last()) == k {
        if starts_loop(spec_plan(boards.last(), has_bus)) {
            Some(spec_plan(boards.last(), has_bus))
        } else {
            None
        }
    } else {
        spec_launch(boards.drop_last(), has_bus, k)
    }
}

/// Launching only ever keys a loop by the identity of a scheduled board in the
/// list: org, site and slug exactly as that board carries them.
pub proof fn law_launch_keys_are_board_identities(boards: Seq<BoardRecord>, has_bus: bool, k: KeyView)
    ensures
        spec_launch(boards, has_bus, k) is Some ==> exists|i: int|
            0 <= i < boards.len() && #[trigger] boards[i].spec_is_scheduled() && boards[i].org@
                == k.org && boards[i].site_id == k.site_id && boards[i].slug@ == k.slug,
    decreases boards.len(),
{
    if boards.len() > 0 {
        let init = boards.drop_last();
        law_launch_keys_are_board_identities(init, has_bus, k);
        if spec_launch(init, has_bus, k) is Some && !(boards.last().spec_is_scheduled() && key_of(
            boards.last(),
        ) == k) {
            let i = choose|i: int|
                0 <= i < init.len() && #[trigger] init[i].spec_is_scheduled() && init[i].org@
                    == k.org && init[i].site_id == k.site_id && init[i].slug@ == k.slug;
            assert(boards[i] == init[i]);
        } else {
            assert(boards[boards.len() - 1] == boards.last());
        }
    }
}

/// A scheduled board that no later scheduled board shares an identity with
/// (same org, site and slug) decides its identity's loop: the loop its own
/// trigger calls for (an interval loop, or a subscription loop when a session
/// exists), or none. Boards of other identities never affect it.
pub proof fn law_launch_follows_last_scheduled_board(boards: Seq<BoardRecord>, has_bus: bool, i: int)
    requires
        0 <= i < boards.len(),
        boards[i].spec_is_scheduled(),
        forall|j: int|
            i < j < boards.len() ==> !(#[trigger] boards[j].spec_is_scheduled() && boards[j].org@
                == boards[i].org@ && boards[j].site_id == boards[i].site_id && boards[j].slug@
                == boards[i].slug@),
    ensures
        spec_launch(
            boards,
            has_bus,
            KeyView { org: boards[i].org@, site_id: boards[i].site_id, slug: boards[i].slug@ },
        ) == match boards[i].trigger {
            Trigger::Manual => None,
            Trigger::Interval { seconds } => Some(Registration::StartInterval { seconds }),
            Trigger::Subscription { key } => if has_bus {
                Some(Registration::StartSubscription { key })
            } else {
                None
            },
        },
    decreases boards.len(),
{
    let k = KeyView { org: boards[i].org@, site_id: boards[i].site_id, slug: boards[i].slug@ };
    let n = boards.len() - 1;
    assert(boards.last() == boards[n]);
    if i < n {
        let init = boards.drop_last();
        assert(!(boards[n].spec_is_scheduled() && key_of(boards[n]) == k));
        assert forall|j: int| i < j < init.len() implies !(#[trigger] init[j].spec_is_scheduled()
            && init[j].org@ == init[i].org@ && init[j].site_id == init[i].site_id && init[j].slug@
            == init[i].slug@) by {
            assert(init[j] == boards[j]);
        }
        assert(init[i] == boards[i]);
        law_launch_follows_last_scheduled_board(init, has_bus, i);
    }
}

/// The loops a scheduler launched over `boards` runs: registering every
/// scheduled board in turn, each identity keeps the plan of its last scheduled
/// board when that plan starts a loop. One entry per identity.
pub fn launch_plan(boards: &Vec<BoardRecord>, has_bus: bool) -> (r: Vec<(BoardKey, Registration)>)
    ensures
        forall|k: KeyView|
            spec_launch(boards@, has_bus, k) is Some ==> exists|i: int|
                0 <= i < r@.len() && #[trigger] r@[i].0@ == k,
        forall|i: int|
            0 <= i < r@.len() ==> spec_launch(boards@, has_bus, #[trigger] r@[i].0@) == Some(r@[i].1),
        forall|i: int, j: int| 0 <= i < j < r@.len() ==> r@[i].0@ != r@[j].0@,
{
    let mut table: LoopTable<Registration> = LoopTable::new();
    let mut i: usize = 0;
    while i < boards.len()
        invariant
            i <= boards@.len(),
            forall|k: KeyView| table.spec_get(k) == spec_launch(boards@.take(i as int), has_bus, k),
        decreases boards@.len() - i,
    {
        let board = &boards[i];
        proof {
            assert(boards@.take(i + 1).drop_last() =~= boards@.take(i as int));
            assert(boards@.take(i + 1).last() == boards@[i as int]);
        }
        if board.is_scheduled() {
            let key = board_key(board);
            let _ = table.remove(&key);
            let plan = plan_registration(board, has_bus);
            match plan {
                Registration::StartInterval { .. } => {
                    let _ = table.insert(key, plan);
                },
                Registration::StartSubscription { .. } => {
                    let _ = table.insert(key, plan);
                },
                _ => {},
            }
        }
        i = i + 1;
    }
    proof {
        assert(boards@.take(boards@.len() as int) =~= boards@);
    }
    let ghost t = table;
    let r = table.into_entries();
    proof {
        assert forall|k: KeyView| spec_launch(boards@, has_bus, k) is Some implies exists|i: int|
            0 <= i < r@.len() && #[trigger] r@[i].0@ == k by {
            assert(t.spec_get(k) is Some);
        }
    }
    r
}

/// `after` is `before` with `task` installed as the loop for `key`: that
/// identity's loop is replaced (or added), every other identity keeps its loop,
/// and the table grows only when the identity had no loop.
pub open spec fn spec_installed<T>(before: LoopTable<T>, key: KeyView, task: T, after: LoopTable<T>) -> bool {
    &&& after.spec_get(key) == Some(task)
    &&& forall|k: KeyView| k != key ==> #[trigger] after.spec_get(k) == before.spec_get(k)
    &&& after.spec_len() == before.spec_len() + (if before.spec_get(key) is Some { 0int } else { 1 })
}

/// Registering a board identity again replaces its loop rather than adding a
/// second: installing twice under one identity leaves the table exactly as a
/// single install of the latest loop would.
pub proof fn law_reinstall_replaces<T>(
    t0: LoopTable<T>,
    t1: LoopTable<T>,
    t2: LoopTable<T>,
    key: KeyView,
    first: T,
    second: T,
)
    requires
        spec_installed(t0, key, first, t1),
        spec_installed(t1, key, second, t2),
    ensures
        spec_installed(t0, key, second, t2),
{
    assert forall|k: KeyView| k != key implies #[trigger] t2.spec_get(k) == t0.spec_get(k) by {
        assert(t2.spec_get(k) == t1.spec_get(k));
        assert(t1.spec_get(k) == t0.spec_get(k));
    }
}

impl<T> LoopTable<T> {
    #[verifier::type_invariant]
    spec fn well_formed(self) -> bool {
        keys_distinct(self.slots@)
    }

    /// The loop running for board identity `k`, if any.
    pub closed spec fn spec_get(self, k: KeyView) -> Option<T> {
        find(self.slots@, k)
    }

    /// The number of live loops.
    pub closed spec fn spec_len(self) -> nat {
        self.slots@.len()
    }

    /// An empty table.
    pub fn new() -> (t: LoopTable<T>)
        ensures
            forall|k: KeyView| t.spec_get(k) is None,
            t.spec_len() == 0,
    {
        LoopTable { slots: Vec::new() }
    }

    /// The number of live loops.
    pub fn active(&self) -> (r: usize)
        ensures
            r == self.spec_len(),
    {
        self.slots.len()
    }

    fn position(&self, key: &BoardKey) -> (r: Option<usize>)
        ensures
            match r {
                Some(i) => i < self.slots@.len() && self.slots@[i as int].key@ == key@,
                None => forall|i: int| 0 <= i < self.slots@.len() ==> self.slots@[i].key@ != key@,
            },
    {
        let mut i: usize = 0;
        while i < self.slots.len()
            invariant
                i <= self.slots@.len(),
                forall|j: int| 0 <= j < i ==> self.slots@[j].key@ != key@,
            decreases self.slots@.len() - i,
        {
            if same_key(&self.slots[i].key, key) {
                return Some(i);
            }
            i = i + 1;
        }
        None
    }

    /// Take the loop for `key` out of the table, if one runs (the caller
    /// cancels it). Every other identity's loop stays.
    pub fn remove(&mut self, key: &BoardKey) -> (r: Option<T>)
        ensures
            r == old(self).spec_get(key@),
            final(self).spec_get(key@) is None,
            forall|k: KeyView| k != key@ ==> final(self).spec_get(k) == old(self).spec_get(k),
            final(self).spec_len() == old(self).spec_len() - (if r is Some { 1int } else { 0 }),
    {
        proof {
            use_type_invariant(&*self);
        }
        match self.position(key) {
            Some(i) => {
                let ghost before = self.slots@;
                let mut slots: Vec<Slot<T>> = Vec::new();
                std::mem::swap(&mut slots, &mut self.slots);
                let slot = slots.remove(i);
                proof {
                    lemma_find_at(before, i as int);
                    lemma_find_remove(before, i as int, key@);
                    assert forall|k: KeyView| k != key@ implies find(slots@, k) == find(before, k) by {
                        lemma_find_remove(before, i as int, k);
                    }
                }
                self.slots = slots;
                Some(slot.task)
            },
            None => None,
        }
    }

    /// Install `task` as the loop for `key`, returning the loop it displaces
    /// (the caller cancels it): at most one loop per board identity, so a
    /// republish replaces its board's loop rather than adding a second.
    pub fn insert(&mut self, key: BoardKey, task: T) -> (r: Option<T>)
        ensures
            r == old(self).spec_get(key@),
            spec_installed(*old(self), key@, task, *final(self)),
    {
        let displaced = self.remove(&key);
        proof {
            use_type_invariant(&*self);
        }
        let ghost before = self.slots@;
        let ghost kv = key@;
        let slot = Slot { key, task };
        proof {
            assert forall|i: int| 0 <= i < before.len() implies before[i].key@ != slot.key@ by {
                if before[i].key@ == slot.key@ {
                    assert(find(before, kv) is Some);
                }
            }
            lemma_find_push(before, slot, kv);
            assert forall|k: KeyView| k != kv implies find(before.push(slot), k) == find(before, k) by {
                lemma_find_push(before, slot, k);
            }
        }
        let mut slots: Vec<Slot<T>> = Vec::new();
        std::mem::swap(&mut slots, &mut self.slots);
        slots.push(slot);
        self.slots = slots;
        proof {
            assert(self.slots@ =~= before.push(slot));
        }
        displaced
    }

    /// Take every loop out of the table (the caller signals and awaits each),
    /// leaving it empty.
    pub fn drain(&mut self) -> (r: Vec<T>)
        ensures
            r@.len() == old(self).spec_len(),
            final(self).spec_len() == 0,
            forall|k: KeyView| final(self).spec_get(k) is None,
            forall|k: KeyView|
                old(self).spec_get(k) is Some ==> exists|i: int|
                    0 <= i < r@.len() && r@[i] == old(self).spec_get(k)->0,
    {
        let mut slots: Vec<Slot<T>> = Vec::new();
        std::mem::swap(&mut slots, &mut self.slots);
        let ghost all = slots@;
        let mut tasks: Vec<T> = Vec::new();
        while slots.len() > 0
            invariant
                slots@.len() + tasks@.len() == all.len(),
                slots@ == all.take(slots@.len() as int),
                forall|j: int| 0 <= j < tasks@.len() ==> tasks@[j] == all[all.len() - 1 - j].task,
            decreases slots@.len(),
        {
            let slot = slots.pop().unwrap();
            tasks.push(slot.task);
            proof {
                assert(slots@ =~= all.take(slots@.len() as int));
            }
        }
        proof {
            assert forall|k: KeyView| find(all, k) is Some implies exists|i: int|
                0 <= i < tasks@.len() && tasks@[i] == find(all, k)->0 by {
                let m = choose|m: int| 0 <= m < all.len() && all[m].key@ == k;
                assert(tasks@[all.len() - 1 - m] == all[m].task);
            }
        }
        tasks
    }

    /// Every loop with its board identity, each identity once: what the table
    /// maps every identity to.
    pub fn into_entries(self) -> (r: Vec<(BoardKey, T)>)
        ensures
            forall|k: KeyView|
                self.spec_get(k) is Some ==> exists|i: int|
                    0 <= i < r@.len() && #[trigger] r@[i].0@ == k && r@[i].1 == self.spec_get(k)->0,
            forall|i: int| 0 <= i < r@.len() ==> self.spec_get(#[trigger] r@[i].0@) == Some(r@[i].1),
            forall|i: int, j: int| 0 <= i < j < r@.len() ==> r@[i].0@ != r@[j].0@,
    {
        proof {
            use_type_invariant(&self);
        }
        let ghost all = self.slots@;
        let mut slots = self.slots;
        let mut out: Vec<(BoardKey, T)> = Vec::new();
        while slots.len() > 0
            invariant
                keys_distinct(all),
                slots@.len() + out@.len() == all.len(),
                slots@ == all.take(slots@.len() as int),
                forall|j: int|
                    0 <= j < out@.len() ==> #[trigger] out@[j].0@ == all[all.len() - 1 - j].key@
                        && out@[j].1 == all[all.len() - 1 - j].task,
            decreases slots@.len(),
        {
            let slot = slots.pop().unwrap();
            out.push((slot.key, slot.task));
            proof {
                assert(slots@ =~= all.take(slots@.len() as int));
            }
        }
        proof {
            let n = all.len();
            assert forall|i: int| 0 <= i < out@.len() implies self.spec_get(#[trigger] out@[i].0@)
                == Some(out@[i].1) by {
                lemma_find_at(all, n - 1 - i);
            }
            assert forall|i: int, j: int| 0 <= i < j < out@.len() implies out@[i].0@ != out@[j].0@ by {
                assert(out@[i].0@ == all[n - 1 - i].key@);
                assert(out@[j].0@ == all[n - 1 - j].key@);
            }
            assert forall|k: KeyView| self.spec_get(k) is Some implies exists|i: int|
                0 <= i < out@.len() && #[trigger] out@[i].0@ == k && out@[i].1 == self.spec_get(k)->0 by {
                let m = choose|m: int| 0 <= m < all.len() && all[m].key@ == k;
                lemma_find_at(all, m);
                assert(out@[n - 1 - m].0@ == all[m].key@);
            }
        }
        out
    }
}

} // verus!
