//! Entity tags: org-scoped key/value tags on a domain entity, addressed by
//! `(org, kind, entity_id)`. The reverse lookup reads every tag row of a kind
//! (ordered by entity, then key) and regroups it per entity.

use vstd::prelude::*;

verus! {

/// One tag row of the reverse lookup: the entity, the key and the value.
pub type TagRow = (u128, String, Option<String>);

/// One tag as values.
pub type TagView = (Seq<char>, Option<Seq<char>>);

/// The strict order of tag keys: lexicographic by character (code point), the
/// order `String` sorts in.
pub open spec fn key_lt(a: Seq<char>, b: Seq<char>) -> bool
    decreases a.len(),
{
    if a.len() == 0 {
        b.len() > 0
    } else if b.len() == 0 {
        false
    } else if a[0] < b[0] {
        true
    } else if a[0] == b[0] {
        key_lt(a.drop_first(), b.drop_first())
    } else {
        false
    }
}

/// No key precedes itself.
pub proof fn lemma_key_lt_irreflexive(a: Seq<char>)
    ensures
        !key_lt(a, a),
    decreases a.len(),
{
    if a.len() > 0 {
        lemma_key_lt_irreflexive(a.drop_first());
    }
}

/// The key order is transitive.
pub proof fn lemma_key_lt_transitive(a: Seq<char>, b: Seq<char>, c: Seq<char>)
    requires
        key_lt(a, b),
        key_lt(b, c),
    ensures
        key_lt(a, c),
    decreases a.len(),
{
    if a.len() > 0 && b.len() > 0 && c.len() > 0 && a[0] == b[0] && b[0] == c[0] {
        lemma_key_lt_transitive(a.drop_first(), b.drop_first(), c.drop_first());
    }
}

/// Any two distinct keys are ordered one way or the other.
pub proof fn lemma_key_lt_total(a: Seq<char>, b: Seq<char>)
    ensures
        a == b || key_lt(a, b) || key_lt(b, a),
    decreases a.len(),
{
    if a.len() > 0 && b.len() > 0 && a[0] == b[0] {
        lemma_key_lt_total(a.drop_first(), b.drop_first());
        if a.drop_first() == b.drop_first() {
            assert(a =~= seq![a[0]] + a.drop_first());
            assert(b =~= seq![b[0]] + b.drop_first());
        }
    } else if a.len() == 0 && b.len() == 0 {
        assert(a =~= b);
    }
}

/// Whether key `a` precedes key `b`.
pub fn key_less(a: &str, b: &str) -> (r: bool)
    ensures
        r == key_lt(a@, b@),
{
    let x = crate::text::chars_of(a);
    let y = crate::text::chars_of(b);
    let mut i: usize = 0;
    proof {
        assert(x@.skip(0) =~= x@);
        assert(y@.skip(0) =~= y@);
    }
    while i < x.len() && i < y.len() && x[i] == y[i]
        invariant
            i <= x@.len(),
            i <= y@.len(),
            key_lt(a@, b@) == key_lt(x@.skip(i as int), y@.skip(i as int)),
            x@ == a@,
            y@ == b@,
        decreases x@.len() - i,
    {
        proof {
            let (xs, ys) = (x@.skip(i as int), y@.skip(i as int));
            assert(xs.drop_first() =~= x@.skip(i + 1));
            assert(ys.drop_first() =~= y@.skip(i + 1));
            assert(xs[0] == ys[0]);
        }
        i = i + 1;
    }
    proof {
        let (xs, ys) = (x@.skip(i as int), y@.skip(i as int));
        if i < x.len() && i < y.len() {
            assert(xs[0] == x@[i as int]);
            assert(ys[0] == y@[i as int]);
        }
    }
    if i == x.len() {
        i < y.len()
    } else if i == y.len() {
        false
    } else {
        x[i] < y[i]
    }
}

/// Keys in strictly increasing order (so also distinct).
pub open spec fn sorted_keys(t: Seq<TagView>) -> bool {
    forall|i: int, j: int| #![trigger t[i], t[j]] 0 <= i < j < t.len() ==> key_lt(t[i].0, t[j].0)
}

/// Set `key` to `value` in a key-sorted tag set: an existing key takes the new
/// value, a new key goes in at its place in the order.
pub open spec fn sorted_insert(t: Seq<TagView>, key: Seq<char>, value: Option<Seq<char>>) -> Seq<
    TagView,
>
    decreases t.len(),
{
    if t.len() == 0 {
        seq![(key, value)]
    } else if t[0].0 == key {
        t.update(0, (key, value))
    } else if key_lt(key, t[0].0) {
        seq![(key, value)] + t
    } else {
        seq![t[0]] + sorted_insert(t.drop_first(), key, value)
    }
}

/// An entity's tag set: `(key, value)` pairs kept in strictly increasing key
/// order, so every key occurs once.
#[derive(Debug)]
pub struct EntityTags {
    entries: Vec<(String, Option<String>)>,
}

/// The value of an optional string.
pub open spec fn opt_view(v: Option<String>) -> Option<Seq<char>> {
    match v {
        Some(s) => Some(s@),
        None => None,
    }
}

/// The values of a tag set.
pub open spec fn tags_view(t: Seq<(String, Option<String>)>) -> Seq<TagView> {
    t.map_values(|p: (String, Option<String>)| (p.0@, opt_view(p.1)))
}

impl Default for EntityTags {
    /// The empty tag set.
    fn default() -> (t: Self)
        ensures
            t.spec_entries() == Seq::<TagView>::empty(),
    {
        EntityTags::new()
    }
}

proof fn lemma_sorted_insert_at(t: Seq<TagView>, key: Seq<char>, value: Option<Seq<char>>, i: int)
    requires
        0 <= i <= t.len(),
        forall|j: int| 0 <= j < i ==> key_lt(#[trigger] t[j].0, key),
        i < t.len() ==> !key_lt(t[i].0, key),
    ensures
        sorted_insert(t, key, value) == if i < t.len() && t[i].0 == key {
            t.update(i, (key, value))
        } else {
            t.take(i) + seq![(key, value)] + t.skip(i)
        },
    decreases i,
{
    if i == 0 {
        if t.len() > 0 && t[0].0 != key {
            lemma_key_lt_total(t[0].0, key);
        }
        assert(t.take(0) + seq![(key, value)] + t.skip(0) =~= seq![(key, value)] + t);
    } else {
        let u = t.drop_first();
        assert forall|j: int| 0 <= j < i - 1 implies key_lt(#[trigger] u[j].0, key) by {
            assert(u[j] == t[j + 1]);
        }
        if i - 1 < u.len() {
            assert(u[i - 1] == t[i]);
        }
        lemma_sorted_insert_at(u, key, value, i - 1);
        assert(key_lt(t[0].0, key));
        if t[0].0 == key {
            lemma_key_lt_irreflexive(key);
        }
        if key_lt(key, t[0].0) {
            lemma_key_lt_transitive(key, t[0].0, key);
            lemma_key_lt_irreflexive(key);
        }
        if i < t.len() && t[i].0 == key {
            assert(seq![t[0]] + u.update(i - 1, (key, value)) =~= t.update(i, (key, value)));
        } else {
            assert(seq![t[0]] + (u.take(i - 1) + seq![(key, value)] + u.skip(i - 1)) =~= t.take(i)
                + seq![(key, value)] + t.skip(i));
        }
    }
}

impl EntityTags {
    #[verifier::type_invariant]
    spec fn well_formed(self) -> bool {
        sorted_keys(tags_view(self.entries@))
    }

    /// The tags, in key order.
    pub closed spec fn spec_entries(self) -> Seq<TagView> {
        tags_view(self.entries@)
    }

    /// The empty tag set.
    pub fn new() -> (t: EntityTags)
        ensures
            t.spec_entries() == Seq::<TagView>::empty(),
    {
        let t = EntityTags { entries: Vec::new() };
        proof {
            assert(tags_view(t.entries@) =~= Seq::<TagView>::empty());
        }
        t
    }

    /// The tags, in strictly increasing key order.
    pub fn entries(&self) -> (r: &Vec<(String, Option<String>)>)
        ensures
            tags_view(r@) == self.spec_entries(),
            sorted_keys(self.spec_entries()),
    {
        proof {
            use_type_invariant(self);
        }
        &self.entries
    }

    /// Set `key` to `value`: an existing key takes the new value, a new key is
    /// added at its place in the order.
    pub fn insert(&mut self, key: String, value: Option<String>)
        ensures
            final(self).spec_entries() == sorted_insert(old(self).spec_entries(), key@, opt_view(value)),
            sorted_keys(final(self).spec_entries()),
    {
        proof {
            use_type_invariant(&*self);
        }
        let ghost t = tags_view(self.entries@);
        let mut i: usize = 0;
        while i < self.entries.len() && key_less(self.entries[i].0.as_str(), key.as_str())
            invariant
                t == tags_view(self.entries@),
                sorted_keys(t),
                i <= self.entries@.len(),
                forall|j: int| 0 <= j < i ==> key_lt(#[trigger] t[j].0, key@),
            decreases self.entries@.len() - i,
        {
            proof {
                assert(t[i as int].0 == self.entries@[i as int].0@);
            }
            i = i + 1;
        }
        proof {
            if i < self.entries.len() {
                assert(t[i as int].0 == self.entries@[i as int].0@);
            }
            lemma_sorted_insert_at(t, key@, opt_view(value), i as int);
        }
        let ghost kv = (key@, opt_view(value));
        let mut entries: Vec<(String, Option<String>)> = Vec::new();
        std::mem::swap(&mut entries, &mut self.entries);
        let same = i < entries.len() && crate::text::str_eq(entries[i].0.as_str(), key.as_str());
        let ghost result: Seq<TagView>;
        if same {
            let _ = entries.remove(i);
            entries.insert(i, (key, value));
            proof {
                assert(tags_view(entries@) =~= t.update(i as int, kv));
                result = t.update(i as int, kv);
            }
        } else {
            entries.insert(i, (key, value));
            proof {
                assert(tags_view(entries@) =~= t.take(i as int) + seq![kv] + t.skip(i as int));
                result = t.take(i as int) + seq![kv] + t.skip(i as int);
            }
        }
        proof {
            let r = tags_view(entries@);
            assert(r == result);
            assert forall|a: int, b: int| #![trigger r[a], r[b]] 0 <= a < b < r.len() implies key_lt(
                r[a].0,
                r[b].0,
            ) by {
                if same {
                    if a == i {
                        assert(r[a].0 == t[a].0);
                    }
                    if b == i {
                        assert(r[b].0 == t[b].0);
                    }
                    assert(r[a].0 == t[a].0);
                    assert(r[b].0 == t[b].0);
                } else {
                    let ai = if a < i { a } else if a == i { -1 } else { a - 1 };
                    let bi = if b < i { b } else if b == i { -1 } else { b - 1 };
                    if a == i {
                        assert(r[a].0 == key@);
                        assert(r[b] == t[bi]);
                        assert(!key_lt(t[i as int].0, key@));
                        assert(t[i as int].0 != key@);
                        lemma_key_lt_total(t[i as int].0, key@);
                        if bi > i {
                            lemma_key_lt_transitive(key@, t[i as int].0, t[bi].0);
                        }
                    } else if b == i {
                        assert(r[b].0 == key@);
                        assert(r[a] == t[ai]);
                    } else {
                        assert(r[a] == t[ai]);
                        assert(r[b] == t[bi]);
                    }
                }
            }
        }
        self.entries = entries;
    }
}

/// Per-entity tag sets from rows ordered by entity: consecutive rows of one
/// entity fold into one set; a new entity starts a new set.
pub open spec fn spec_group(rows: Seq<TagRow>) -> Seq<(u128, Seq<TagView>)>
    decreases rows.len(),
{
    if rows.len() == 0 {
        Seq::empty()
    } else {
        let prev = spec_group(rows.drop_last());
        let (id, key, value) = rows.last();
        if prev.len() > 0 && prev.last().0 == id {
            prev.update(prev.len() - 1, (id, sorted_insert(prev.last().1, key@, opt_view(value))))
        } else {
            prev.push((id, seq![(key@, opt_view(value))]))
        }
    }
}

/// The values of a grouped result.
pub open spec fn groups_view(g: Seq<(u128, EntityTags)>) -> Seq<(u128, Seq<TagView>)> {
    g.map_values(|e: (u128, EntityTags)| (e.0, e.1.spec_entries()))
}

/// Rows whose entity ids never decrease.
pub open spec fn ids_nondecreasing(rows: Seq<TagRow>) -> bool {
    forall|i: int, j: int| #![trigger rows[i], rows[j]] 0 <= i <= j < rows.len() ==> rows[i].0 <= rows[j].0
}

/// Group ids in strictly increasing order: each entity once.
pub open spec fn ids_increasing(g: Seq<(u128, Seq<TagView>)>) -> bool {
    forall|a: int, b: int| #![trigger g[a], g[b]] 0 <= a < b < g.len() ==> g[a].0 < g[b].0
}

proof fn lemma_group_ids(rows: Seq<TagRow>)
    requires
        ids_nondecreasing(rows),
    ensures
        ids_increasing(spec_group(rows)),
        rows.len() > 0 ==> spec_group(rows).len() > 0 && spec_group(rows).last().0 == rows.last().0,
        rows.len() == 0 ==> spec_group(rows).len() == 0,
    decreases rows.len(),
{
    if rows.len() > 0 {
        let init = rows.drop_last();
        assert forall|i: int, j: int| #![trigger init[i], init[j]] 0 <= i <= j < init.len() implies init[i].0
            <= init[j].0 by {
            assert(init[i] == rows[i]);
            assert(init[j] == rows[j]);
        }
        lemma_group_ids(init);
        let prev = spec_group(init);
        let g = spec_group(rows);
        if prev.len() > 0 {
            assert(init.last() == rows[rows.len() - 2]);
            assert(rows.last() == rows[rows.len() - 1]);
            assert(prev.last().0 <= rows.last().0);
        }
        assert forall|a: int, b: int| #![trigger g[a], g[b]] 0 <= a < b < g.len() implies g[a].0
            < g[b].0 by {
            if b < prev.len() {
                assert(g[a].0 == prev[a].0);
                assert(g[b].0 == prev[b].0);
            } else {
                assert(g[a].0 == prev[a].0);
                if a < prev.len() - 1 {
                    assert(prev[a].0 < prev[prev.len() - 1].0);
                }
            }
        }
    }
}

fn clone_opt(v: &Option<String>) -> (r: Option<String>)
    ensures
        opt_view(r) == opt_view(*v),
{
    match v {
        Some(s) => Some(s.clone()),
        None => None,
    }
}

/// Regroup tag rows (ordered by entity, then key) into one tag set per entity,
/// in row order: the reverse lookup "which entities of a kind carry tags".
/// Rows ordered by entity give each entity once, in increasing id order.
pub fn group_tag_rows(rows: &Vec<TagRow>) -> (r: Vec<(u128, EntityTags)>)
    ensures
        groups_view(r@) == spec_group(rows@),
        ids_nondecreasing(rows@) ==> ids_increasing(groups_view(r@)),
{
    let mut out: Vec<(u128, EntityTags)> = Vec::new();
    let mut i: usize = 0;
    while i < rows.len()
        invariant
            i <= rows@.len(),
            groups_view(out@) == spec_group(rows@.take(i as int)),
        decreases rows@.len() - i,
    {
        let (id, key, value) = (rows[i].0, rows[i].1.clone(), clone_opt(&rows[i].2));
        let ghost prev = groups_view(out@);
        let ghost kv = (key@, opt_view(value));
        proof {
            assert(rows@.take(i + 1).drop_last() =~= rows@.take(i as int));
            assert(rows@.take(i + 1).last() == rows@[i as int]);
        }
        let n = out.len();
        let same = n > 0 && out[n - 1].0 == id;
        if same {
            let ghost old_out = out@;
            let (last_id, mut tags) = out.pop().unwrap();
            proof {
                assert(old_out.last() == (last_id, tags));
                assert(prev.last() == (last_id, tags.spec_entries()));
            }
            tags.insert(key, value);
            out.push((last_id, tags));
            proof {
                assert(groups_view(out@) =~= prev.update(
                    prev.len() - 1,
                    (id, sorted_insert(prev.last().1, kv.0, kv.1)),
                ));
            }
        } else {
            let mut tags = EntityTags::new();
            tags.insert(key, value);
            proof {
                assert(sorted_insert(Seq::<TagView>::empty(), kv.0, kv.1) =~= seq![kv]);
            }
            out.push((id, tags));
            proof {
                assert(groups_view(out@) =~= prev.push((id, seq![kv])));
            }
        }
        i = i + 1;
    }
    proof {
        assert(rows@.take(rows@.len() as int) =~= rows@);
        if ids_nondecreasing(rows@) {
            lemma_group_ids(rows@);
        }
    }
    out
}

} // verus!
