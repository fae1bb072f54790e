//! Latest per-node output values from board runs, so a client can see what an
//! enabled (autonomously running) board is producing. Only the latest value per
//! `(slug, node, port)` from each board's most recent run is kept: a run is a
//! complete picture of what fired, so it replaces the board's previous outputs.

use vstd::prelude::*;

verus! {

/// One packet a node emitted during a run: the node, its port, the value (as
/// JSON text) and the link quality token (`ok` / `fault` / `null`).
#[derive(Debug, Clone)]
pub struct NodeOutput {
    pub node: String,
    pub port: String,
    pub value: String,
    pub quality: String,
}

/// One node's latest output on one port, with the wall-clock instant (RFC 3339)
/// it was captured.
#[derive(Debug, Clone)]
pub struct PortOutput {
    pub node: String,
    pub port: String,
    pub value: String,
    pub quality: String,
    pub at: String,
}

/// A port output as values.
pub struct PortView {
    pub node: Seq<char>,
    pub port: Seq<char>,
    pub value: Seq<char>,
    pub quality: Seq<char>,
    pub at: Seq<char>,
}

impl View for PortOutput {
    type V = PortView;

    open spec fn view(&self) -> PortView {
        PortView {
            node: self.node@,
            port: self.port@,
            value: self.value@,
            quality: self.quality@,
            at: self.at@,
        }
    }
}

impl PortOutput {
    /// A copy of this output.
    pub fn duplicate(&self) -> (r: PortOutput)
        ensures
            r@ == self@,
    {
        PortOutput {
            node: self.node.clone(),
            port: self.port.clone(),
            value: self.value.clone(),
            quality: self.quality.clone(),
            at: self.at.clone(),
        }
    }
}

/// The values of a list of port outputs.
pub open spec fn ports_view(v: Seq<PortOutput>) -> Seq<PortView> {
    v.map_values(|p: PortOutput| p@)
}

/// The port output a node output becomes when captured at `at`.
pub open spec fn captured(o: NodeOutput, at: Seq<char>) -> PortView {
    PortView { node: o.node@, port: o.port@, value: o.value@, quality: o.quality@, at }
}

/// The position of the `(node, port)` entry in a snapshot, if any.
pub open spec fn find_port(snap: Seq<PortView>, node: Seq<char>, port: Seq<char>) -> Option<int> {
    if exists|k: int| 0 <= k < snap.len() && snap[k].node == node && snap[k].port == port {
        Some(choose|k: int| 0 <= k < snap.len() && snap[k].node == node && snap[k].port == port)
    } else {
        None
    }
}

/// No two entries of a snapshot share a `(node, port)`.
pub open spec fn ports_distinct(snap: Seq<PortView>) -> bool {
    forall|i: int, j: int|
        #![trigger snap[i], snap[j]]
        0 <= i < j < snap.len() ==> !(snap[i].node == snap[j].node && snap[i].port == snap[j].port)
}

/// The snapshot one run leaves: one entry per `(node, port)`, holding that
/// port's last packet of the run, in order of the port's first packet.
pub open spec fn spec_snapshot(outs: Seq<NodeOutput>, at: Seq<char>) -> Seq<PortView>
    decreases outs.len(),
{
    if outs.len() == 0 {
        Seq::empty()
    } else {
        let prev = spec_snapshot(outs.drop_last(), at);
        let o = outs.last();
        match find_port(prev, o.node@, o.port@) {
            Some(k) => prev.update(k, captured(o, at)),
            None => prev.push(captured(o, at)),
        }
    }
}

/// A run's snapshot holds each `(node, port)` at most once.
pub proof fn law_snapshot_ports_distinct(outs: Seq<NodeOutput>, at: Seq<char>)
    ensures
        ports_distinct(spec_snapshot(outs, at)),
    decreases outs.len(),
{
    if outs.len() > 0 {
        let prev = spec_snapshot(outs.drop_last(), at);
        law_snapshot_ports_distinct(outs.drop_last(), at);
        let o = outs.last();
        let cur = spec_snapshot(outs, at);
        match find_port(prev, o.node@, o.port@) {
            Some(k) => {
                assert forall|a: int, b: int|
                    #![trigger cur[a], cur[b]]
                    0 <= a < b < cur.len() implies !(cur[a].node == cur[b].node && cur[a].port
                    == cur[b].port) by {
                    if a != k && b != k {
                        assert(cur[a] == prev[a] && cur[b] == prev[b]);
                        assert(!(prev[a].node == prev[b].node && prev[a].port == prev[b].port));
                    } else if a == k {
                        assert(cur[b] == prev[b]);
                        assert(!(prev[a].node == prev[b].node && prev[a].port == prev[b].port));
                    } else {
                        assert(cur[a] == prev[a]);
                        assert(!(prev[a].node == prev[b].node && prev[a].port == prev[b].port));
                    }
                }
            },
            None => {
                assert forall|a: int, b: int|
                    #![trigger cur[a], cur[b]]
                    0 <= a < b < cur.len() implies !(cur[a].node == cur[b].node && cur[a].port
                    == cur[b].port) by {
                    assert(cur[a] == prev[a]);
                    if b < prev.len() {
                        assert(cur[b] == prev[b]);
                        assert(!(prev[a].node == prev[b].node && prev[a].port == prev[b].port));
                    }
                }
            },
        }
    }
}

/// A run's snapshot keeps, for every port that emitted, the port's last packet
/// of the run: no port that fired is dropped and no earlier packet shadows a
/// later one.
pub proof fn law_snapshot_keeps_last_packet(outs: Seq<NodeOutput>, at: Seq<char>, i: int)
    requires
        0 <= i < outs.len(),
        forall|j: int|
            i < j < outs.len() ==> !(#[trigger] outs[j].node@ == outs[i].node@ && outs[j].port@
                == outs[i].port@),
    ensures
        exists|k: int|
            0 <= k < spec_snapshot(outs, at).len() && spec_snapshot(outs, at)[k] == captured(
                outs[i],
                at,
            ),
    decreases outs.len(),
{
    let prev = spec_snapshot(outs.drop_last(), at);
    let o = outs.last();
    let cur = spec_snapshot(outs, at);
    if i == outs.len() - 1 {
        match find_port(prev, o.node@, o.port@) {
            Some(k) => {
                assert(cur[k] == captured(o, at));
            },
            None => {
                assert(cur[prev.len() as int] == captured(o, at));
            },
        }
    } else {
        let d = outs.drop_last();
        assert forall|j: int| i < j < d.len() implies !(#[trigger] d[j].node@ == d[i].node@
            && d[j].port@ == d[i].port@) by {
            assert(d[j] == outs[j]);
        }
        law_snapshot_keeps_last_packet(d, at, i);
        assert(d[i] == outs[i]);
        let k = choose|k: int| 0 <= k < prev.len() && prev[k] == captured(outs[i], at);
        assert(!(o.node@ == outs[i].node@ && o.port@ == outs[i].port@)) by {
            assert(outs[outs.len() - 1] == o);
        }
        match find_port(prev, o.node@, o.port@) {
            Some(m) => {
                assert(m != k);
                assert(cur[k] == prev[k]);
            },
            None => {
                assert(cur[k] == prev[k]);
            },
        }
    }
}

/// One board's cached outputs.
struct BoardEntry {
    slug: String,
    ports: Vec<PortOutput>,
}

/// The latest-outputs cache, keyed by board slug.
pub struct BoardOutputs {
    entries: Vec<BoardEntry>,
}

/// The outputs cached for `slug` in a list of entries with distinct slugs.
spec fn lookup(entries: Seq<BoardEntry>, slug: Seq<char>) -> Seq<PortView> {
    if exists|i: int| 0 <= i < entries.len() && entries[i].slug@ == slug {
        ports_view(
            entries[choose|i: int| 0 <= i < entries.len() && entries[i].slug@ == slug].ports@,
        )
    } else {
        Seq::empty()
    }
}

spec fn slugs_distinct(entries: Seq<BoardEntry>) -> bool {
    forall|i: int, j: int| 0 <= i < j < entries.len() ==> entries[i].slug@ != entries[j].slug@
}

proof fn lemma_lookup_at(entries: Seq<BoardEntry>, i: int)
    requires
        slugs_distinct(entries),
        0 <= i < entries.len(),
    ensures
        lookup(entries, entries[i].slug@) == ports_view(entries[i].ports@),
{
    let s = entries[i].slug@;
    let k = choose|k: int| 0 <= k < entries.len() && entries[k].slug@ == s;
    if k != i {
        if k < i {
            assert(entries[k].slug@ != entries[i].slug@);
        } else {
            assert(entries[i].slug@ != entries[k].slug@);
        }
    }
}

proof fn lemma_lookup_absent(entries: Seq<BoardEntry>, slug: Seq<char>)
    requires
        forall|i: int| 0 <= i < entries.len() ==> entries[i].slug@ != slug,
    ensures
        lookup(entries, slug) == Seq::<PortView>::empty(),
{
}

proof fn lemma_lookup_any(entries: Seq<BoardEntry>, slug: Seq<char>)
    requires
        slugs_distinct(entries),
    ensures
        (exists|i: int| 0 <= i < entries.len() && entries[i].slug@ == slug) ==> (exists|i: int|
            0 <= i < entries.len() && entries[i].slug@ == slug && lookup(entries, slug)
                == ports_view(entries[i].ports@)),
{
    if exists|i: int| 0 <= i < entries.len() && entries[i].slug@ == slug {
        let i = choose|i: int| 0 <= i < entries.len() && entries[i].slug@ == slug;
        lemma_lookup_at(entries, i);
    }
}

/// Removing entry `i` leaves every other board's outputs as they were.
proof fn lemma_lookup_remove(entries: Seq<BoardEntry>, i: int, slug: Seq<char>)
    requires
        slugs_distinct(entries),
        0 <= i < entries.len(),
        entries[i].slug@ != slug,
    ensures
        lookup(entries.remove(i), slug) == lookup(entries, slug),
        slugs_distinct(entries.remove(i)),
{
    let r = entries.remove(i);
    assert forall|a: int, b: int| 0 <= a < b < r.len() implies r[a].slug@ != r[b].slug@ by {
        let a2 = if a < i { a } else { a + 1 };
        let b2 = if b < i { b } else { b + 1 };
        assert(r[a] == entries[a2]);
        assert(r[b] == entries[b2]);
    }
    if exists|k: int| 0 <= k < entries.len() && entries[k].slug@ == slug {
        let k = choose|k: int| 0 <= k < entries.len() && entries[k].slug@ == slug;
        lemma_lookup_at(entries, k);
        let k2 = if k < i { k } else { k - 1 };
        assert(r[k2] == entries[k]);
        lemma_lookup_at(r, k2);
    } else {
        assert forall|k: int| 0 <= k < r.len() implies r[k].slug@ != slug by {
            let k2 = if k < i { k } else { k + 1 };
            assert(r[k] == entries[k2]);
        }
    }
}

proof fn lemma_lookup_remove_distinct(entries: Seq<BoardEntry>, i: int)
    requires
        slugs_distinct(entries),
        0 <= i < entries.len(),
    ensures
        slugs_distinct(entries.remove(i)),
{
    let r = entries.remove(i);
    assert forall|a: int, b: int| 0 <= a < b < r.len() implies r[a].slug@ != r[b].slug@ by {
        let a2 = if a < i { a } else { a + 1 };
        let b2 = if b < i { b } else { b + 1 };
        assert(r[a] == entries[a2]);
        assert(r[b] == entries[b2]);
    }
}

/// Appending a board with a fresh slug leaves every other board's outputs.
proof fn lemma_lookup_push(entries: Seq<BoardEntry>, e: BoardEntry, slug: Seq<char>)
    requires
        slugs_distinct(entries),
        forall|i: int| 0 <= i < entries.len() ==> entries[i].slug@ != e.slug@,
    ensures
        slugs_distinct(entries.push(e)),
        lookup(entries.push(e), slug) == if slug == e.slug@ {
            ports_view(e.ports@)
        } else {
            lookup(entries, slug)
        },
{
    let p = entries.push(e);
    assert forall|a: int, b: int| 0 <= a < b < p.len() implies p[a].slug@ != p[b].slug@ by {
        if b == entries.len() {
            assert(p[a] == entries[a]);
        }
    }
    if slug == e.slug@ {
        lemma_lookup_at(p, entries.len() as int);
    } else {
        if exists|k: int| 0 <= k < entries.len() && entries[k].slug@ == slug {
            let k = choose|k: int| 0 <= k < entries.len() && entries[k].slug@ == slug;
            lemma_lookup_at(entries, k);
            assert(p[k] == entries[k]);
            lemma_lookup_at(p, k);
        } else {
            assert forall|k: int| 0 <= k < p.len() implies p[k].slug@ != slug by {
                if k < entries.len() {
                    assert(p[k] == entries[k]);
                }
            }
        }
    }
}

impl BoardOutputs {
    #[verifier::type_invariant]
    spec fn well_formed(self) -> bool {
        slugs_distinct(self.entries@)
    }

    /// The outputs the most recent run of board `slug` produced, or nothing
    /// when it has not run (or was cleared).
    pub closed spec fn spec_latest(self, slug: Seq<char>) -> Seq<PortView> {
        lookup(self.entries@, slug)
    }

    /// An empty cache.
    pub fn new() -> (c: BoardOutputs)
        ensures
            forall|slug: Seq<char>| c.spec_latest(slug) == Seq::<PortView>::empty(),
    {
        BoardOutputs { entries: Vec::new() }
    }

    /// Position of the entry for `slug`, if cached.
    fn position(&self, slug: &str) -> (r: Option<usize>)
        ensures
            match r {
                Some(i) => i < self.entries@.len() && self.entries@[i as int].slug@ == slug@,
                None => forall|i: int|
                    0 <= i < self.entries@.len() ==> self.entries@[i].slug@ != slug@,
            },
    {
        let mut i: usize = 0;
        while i < self.entries.len()
            invariant
                i <= self.entries@.len(),
                forall|j: int| 0 <= j < i ==> self.entries@[j].slug@ != slug@,
            decreases self.entries@.len() - i,
        {
            if crate::text::str_eq(self.entries[i].slug.as_str(), slug) {
                return Some(i);
            }
            i = i + 1;
        }
        None
    }

    /// Drop the entry for `slug`, if any, leaving every other board's outputs.
    fn forget(&mut self, slug: &str)
        ensures
            forall|i: int|
                0 <= i < final(self).entries@.len() ==> final(self).entries@[i].slug@ != slug@,
            forall|s: Seq<char>| s != slug@ ==> final(self).spec_latest(s) == old(self).spec_latest(s),
    {
        proof {
            use_type_invariant(&*self);
        }
        match self.position(slug) {
            Some(i) => {
                let ghost before = self.entries@;
                let mut entries: Vec<BoardEntry> = Vec::new();
                std::mem::swap(&mut entries, &mut self.entries);
                let _ = entries.remove(i);
                proof {
                    assert(entries@ =~= before.remove(i as int));
                    lemma_lookup_remove_distinct(before, i as int);
                }
                self.entries = entries;
                proof {
                    assert forall|s: Seq<char>| s != slug@ implies lookup(self.entries@, s) == lookup(
                        before,
                        s,
                    ) by {
                        lemma_lookup_remove(before, i as int, s);
                    }
                    assert forall|k: int| 0 <= k < self.entries@.len() implies self.entries@[k].slug@
                        != slug@ by {
                        let k2 = if k < i { k } else { k + 1 };
                        assert(self.entries@[k] == before[k2]);
                        if k2 != i as int {
                            if k2 < i {
                                assert(before[k2].slug@ != before[i as int].slug@);
                            } else {
                                assert(before[i as int].slug@ != before[k2].slug@);
                            }
                        }
                    }
                }
            },
            None => {},
        }
    }

    /// Replace board `slug`'s latest outputs with the packets of one run,
    /// captured at `at`, and return the new snapshot (for pushing to live
    /// subscribers). Every other board's outputs are left as they were.
    pub fn record(&mut self, slug: &str, outputs: &Vec<NodeOutput>, at: String) -> (r: Vec<
        PortOutput,
    >)
        ensures
            final(self).spec_latest(slug@) == spec_snapshot(outputs@, at@),
            ports_view(r@) == spec_snapshot(outputs@, at@),
            forall|s: Seq<char>| s != slug@ ==> final(self).spec_latest(s) == old(self).spec_latest(s),
    {
        let snap = snapshot(outputs, &at);
        let copy = duplicate_all(&snap);
        self.forget(slug);
        let ghost before = self.entries@;
        let entry = BoardEntry { slug: slug.to_string(), ports: snap };
        proof {
            use_type_invariant(&*self);
            lemma_lookup_push(before, entry, slug@);
            assert forall|s: Seq<char>| s != slug@ implies lookup(before.push(entry), s) == lookup(
                before,
                s,
            ) by {
                lemma_lookup_push(before, entry, s);
            }
        }
        let mut entries: Vec<BoardEntry> = Vec::new();
        std::mem::swap(&mut entries, &mut self.entries);
        entries.push(entry);
        self.entries = entries;
        proof {
            assert(self.entries@ =~= before.push(entry));
        }
        copy
    }

    /// The latest outputs for a board: empty if it has not run since the
    /// server started.
    pub fn latest(&self, slug: &str) -> (r: Vec<PortOutput>)
        ensures
            ports_view(r@) == self.spec_latest(slug@),
    {
        proof {
            use_type_invariant(self);
        }
        match self.position(slug) {
            Some(i) => {
                proof {
                    lemma_lookup_at(self.entries@, i as int);
                }
                duplicate_all(&self.entries[i].ports)
            },
            None => {
                proof {
                    assert(ports_view(Seq::<PortOutput>::empty()) =~= Seq::<PortView>::empty());
                }
                Vec::new()
            },
        }
    }

    /// Drop a board's cached outputs (on delete or disable) and return the
    /// empty snapshot that blanks live subscribers.
    pub fn clear(&mut self, slug: &str) -> (r: Vec<PortOutput>)
        ensures
            final(self).spec_latest(slug@) == Seq::<PortView>::empty(),
            r@.len() == 0,
            forall|s: Seq<char>| s != slug@ ==> final(self).spec_latest(s) == old(self).spec_latest(s),
    {
        self.forget(slug);
        Vec::new()
    }
}

/// A copy of a list of port outputs.
fn duplicate_all(v: &Vec<PortOutput>) -> (r: Vec<PortOutput>)
    ensures
        ports_view(r@) == ports_view(v@),
{
    let mut r: Vec<PortOutput> = Vec::new();
    let mut i: usize = 0;
    while i < v.len()
        invariant
            i <= v.len(),
            ports_view(r@) == ports_view(v@.take(i as int)),
        decreases v.len() - i,
    {
        let ghost old_r = r@;
        let d = v[i].duplicate();
        r.push(d);
        proof {
            assert(r@ == old_r.push(d));
            assert(ports_view(r@) =~= ports_view(old_r).push(d@));
            assert(v@.take(i + 1) =~= v@.take(i as int).push(v@[i as int]));
            assert(ports_view(v@.take(i + 1)) =~= ports_view(v@.take(i as int)).push(v@[i as int]@));
        }
        i = i + 1;
    }
    assert(v@.take(v.len() as int) =~= v@);
    r
}

/// Position of `(node, port)` in a snapshot with distinct ports, if present.
fn position_of_port(snap: &Vec<PortOutput>, node: &String, port: &String) -> (r: Option<usize>)
    requires
        ports_distinct(ports_view(snap@)),
    ensures
        match r {
            Some(k) => find_port(ports_view(snap@), node@, port@) == Some(k as int),
            None => find_port(ports_view(snap@), node@, port@) is None,
        },
{
    let ghost sv = ports_view(snap@);
    let mut i: usize = 0;
    while i < snap.len()
        invariant
            sv == ports_view(snap@),
            ports_distinct(sv),
            i <= snap@.len(),
            forall|j: int| 0 <= j < i ==> !(sv[j].node == node@ && sv[j].port == port@),
        decreases snap@.len() - i,
    {
        if snap[i].node == *node && snap[i].port == *port {
            proof {
                assert(sv[i as int] == snap@[i as int]@);
                assert(sv[i as int].node == node@ && sv[i as int].port == port@);
                let k = choose|k: int|
                    0 <= k < sv.len() && sv[k].node == node@ && sv[k].port == port@;
                if k != i {
                    if k < i {
                        assert(!(sv[k].node == sv[i as int].node && sv[k].port == sv[i as int].port));
                    } else {
                        assert(!(sv[i as int].node == sv[k].node && sv[i as int].port == sv[k].port));
                    }
                }
            }
            return Some(i);
        }
        proof {
            assert(sv[i as int] == snap@[i as int]@);
        }
        i = i + 1;
    }
    None
}

/// The snapshot of one run's packets, captured at `at`.
fn snapshot(outputs: &Vec<NodeOutput>, at: &String) -> (r: Vec<PortOutput>)
    ensures
        ports_view(r@) == spec_snapshot(outputs@, at@),
{
    let mut snap: Vec<PortOutput> = Vec::new();
    let mut i: usize = 0;
    while i < outputs.len()
        invariant
            i <= outputs@.len(),
            ports_view(snap@) == spec_snapshot(outputs@.take(i as int), at@),
            ports_distinct(ports_view(snap@)),
        decreases outputs@.len() - i,
    {
        let o = &outputs[i];
        let ghost prev = ports_view(snap@);
        proof {
            assert(outputs@.take(i + 1).drop_last() =~= outputs@.take(i as int));
            assert(outputs@.take(i + 1).last() == outputs@[i as int]);
        }
        let p = PortOutput {
            node: o.node.clone(),
            port: o.port.clone(),
            value: o.value.clone(),
            quality: o.quality.clone(),
            at: at.clone(),
        };
        match position_of_port(&snap, &o.node, &o.port) {
            Some(k) => {
                let _ = snap.remove(k);
                snap.insert(k, p);
                proof {
                    assert(ports_view(snap@) =~= prev.update(k as int, captured(*o, at@)));
                    assert forall|a: int, b: int|
                        0 <= a < b < ports_view(snap@).len() implies !(ports_view(snap@)[a].node
                        == ports_view(snap@)[b].node && ports_view(snap@)[a].port == ports_view(
                        snap@,
                    )[b].port) by {
                        assert(prev[k as int].node == o.node@ && prev[k as int].port == o.port@);
                        if a != k && b != k {
                            assert(ports_view(snap@)[a] == prev[a]);
                            assert(ports_view(snap@)[b] == prev[b]);
                        } else if a == k {
                            assert(ports_view(snap@)[b] == prev[b]);
                        } else {
                            assert(ports_view(snap@)[a] == prev[a]);
                        }
                    }
                }
            },
            None => {
                snap.push(p);
                proof {
                    assert(ports_view(snap@) =~= prev.push(captured(*o, at@)));
                    assert forall|a: int, b: int|
                        0 <= a < b < ports_view(snap@).len() implies !(ports_view(snap@)[a].node
                        == ports_view(snap@)[b].node && ports_view(snap@)[a].port == ports_view(
                        snap@,
                    )[b].port) by {
                        if b == prev.len() {
                            assert(ports_view(snap@)[a] == prev[a]);
                            assert(!(prev[a].node == o.node@ && prev[a].port == o.port@));
                        } else {
                            assert(ports_view(snap@)[a] == prev[a]);
                            assert(ports_view(snap@)[b] == prev[b]);
                        }
                    }
                }
            },
        }
        i = i + 1;
    }
    assert(outputs@.take(outputs@.len() as int) =~= outputs@);
    snap
}

} // verus!
