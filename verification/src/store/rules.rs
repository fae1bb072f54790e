//! Stored rules: a named, parameterized script that returns a verdict, scoped
//! to an org and optionally one site. A rule composes another by name with a
//! `rule("<name>", …)` call; the referencing-rules listing makes the blast
//! radius of editing a shared rule visible.

use vstd::prelude::*;

use super::error::StoreError;
use super::timestamps::Timestamp;
use crate::text::{
    chars_eq, chars_of, is_whitespace, occurs_at, occurs_at_index, spec_is_whitespace,
};

verus! {

broadcast use vstd::string::group_string_axioms;

/// A stored rule as persisted: identity, scope, the script, and the declared
/// parameter schema (as its JSON text).
#[derive(Debug, Clone, PartialEq)]
pub struct RuleRecord {
    pub id: u128,
    /// Tenant scope (the org namespace). Always set.
    pub org: String,
    /// The single site this rule is for; `None` for an org-level rule.
    pub site_id: Option<u128>,
    /// Composition name, unique per scope `(org, site_id)`.
    pub name: String,
    pub script: String,
    /// The parameter schema, JSON-encoded.
    pub params: String,
    /// Creation instant.
    pub created_at: Timestamp,
}

/// The opening of a composition call: `rule(`.
pub open spec fn call_open() -> Seq<char> {
    seq!['r', 'u', 'l', 'e', '(']
}

/// `name` between two `quote` characters.
pub open spec fn quoted(name: Seq<char>, quote: char) -> Seq<char> {
    seq![quote] + name + seq![quote]
}

/// A composition call of `name` opens at `i` of `script`: `rule(`, then a run
/// of whitespace (possibly empty) up to `j`, then the name in double or single
/// quotes at `j`.
pub open spec fn call_at(script: Seq<char>, name: Seq<char>, i: int, j: int) -> bool {
    &&& occurs_at(script, call_open(), i)
    &&& i + 5 <= j
    &&& forall|k: int| i + 5 <= k < j ==> spec_is_whitespace(#[trigger] script[k])
    &&& (occurs_at(script, quoted(name, '"'), j) || occurs_at(script, quoted(name, '\''), j))
}

/// Whether `script` holds a `rule("<name>", …)` composition call, with either
/// quote style and any whitespace between the parenthesis and the quote.
pub open spec fn spec_references(script: Seq<char>, name: Seq<char>) -> bool {
    exists|i: int, j: int| #[trigger] call_at(script, name, i, j)
}

fn quoted_chars(name: &Vec<char>, quote: char) -> (r: Vec<char>)
    ensures
        r@ == quoted(name@, quote),
{
    let mut out: Vec<char> = Vec::new();
    out.push(quote);
    crate::text::push_chars(&mut out, name);
    out.push(quote);
    proof {
        assert(out@ =~= quoted(name@, quote));
    }
    out
}

/// Whether a composition call of `n` opens at index `i` of `s`.
fn call_opens_at(
    s: &Vec<char>,
    n: &Vec<char>,
    open: &Vec<char>,
    dq: &Vec<char>,
    sq: &Vec<char>,
    i: usize,
) -> (r: bool)
    requires
        open@ == call_open(),
        dq@ == quoted(n@, '"'),
        sq@ == quoted(n@, '\''),
    ensures
        r == exists|j: int| call_at(s@, n@, i as int, j),
{
    if !occurs_at_index(s, open, i) {
        return false;
    }
    assert(open@.len() == 5);
    assert(occurs_at(s@, open@, i as int));
    let len = s.len();
    assert(i + 5 <= len);
    let mut j: usize = i + 5;
    while j < s.len() && is_whitespace(s[j])
        invariant
            i + 5 <= j <= s@.len(),
            forall|k: int| i + 5 <= k < j ==> spec_is_whitespace(#[trigger] s@[k]),
        decreases s@.len() - j,
    {
        j = j + 1;
    }
    let r = occurs_at_index(s, dq, j) || occurs_at_index(s, sq, j);
    proof {
        if r {
            assert(call_at(s@, n@, i as int, j as int));
        } else {
            assert forall|j2: int| !call_at(s@, n@, i as int, j2) by {
                if call_at(s@, n@, i as int, j2) {
                    let q = if occurs_at(s@, quoted(n@, '"'), j2) { '"' } else { '\'' };
                    assert(s@.subrange(j2, j2 + quoted(n@, q).len())[0] == q);
                    assert(s@[j2] == q);
                    if j2 < j {
                        assert(spec_is_whitespace(s@[j2]));
                    } else if j2 > j {
                        assert(spec_is_whitespace(s@[j as int]));
                    }
                }
            }
        }
    }
    r
}

/// Whether `script` contains a `rule("<name>", …)` composition call.
///
/// A textual scan: it can over-report a name that appears in a string literal
/// but never under-reports a real call, the safe direction for a change-impact
/// warning.
pub fn references(script: &str, name: &str) -> (r: bool)
    ensures
        r == spec_references(script@, name@),
{
    let s = chars_of(script);
    let n = chars_of(name);
    let open: Vec<char> = vec!['r', 'u', 'l', 'e', '('];
    proof {
        assert(open@ =~= call_open());
    }
    let dq = quoted_chars(&n, '"');
    let sq = quoted_chars(&n, '\'');
    let mut i: usize = 0;
    while i < s.len()
        invariant
            i <= s@.len(),
            s@ == script@,
            n@ == name@,
            open@ == call_open(),
            dq@ == quoted(n@, '"'),
            sq@ == quoted(n@, '\''),
            forall|i2: int, j2: int| 0 <= i2 < i ==> !#[trigger] call_at(s@, n@, i2, j2),
        decreases s@.len() - i,
    {
        if call_opens_at(&s, &n, &open, &dq, &sq, i) {
            proof {
                let j = choose|j: int| call_at(s@, n@, i as int, j);
                assert(call_at(s@, n@, i as int, j));

            }
            return true;
        }
        i = i + 1;
    }
    proof {
        assert forall|i2: int, j2: int| !#[trigger] call_at(s@, n@, i2, j2) by {
            if call_at(s@, n@, i2, j2) {
                assert(i2 < i);
            }
        }
    }
    false
}

/// Whether a rule other than `name` composes `name`.
pub open spec fn composes(rule: RuleRecord, name: Seq<char>) -> bool {
    rule.name@ != name && spec_references(rule.script@, name)
}

/// The rules (in order) whose scripts compose `name`, leaving `name` itself out.
pub open spec fn spec_referencing(rules: Seq<RuleRecord>, name: Seq<char>) -> Seq<RuleRecord>
    decreases rules.len(),
{
    if rules.len() == 0 {
        Seq::empty()
    } else {
        let rest = spec_referencing(rules.drop_last(), name);
        if composes(rules.last(), name) {
            rest.push(rules.last())
        } else {
            rest
        }
    }
}

/// The rules among `rules` whose scripts compose `name` — the change-impact
/// listing over a scope's rules, in their listed order.
pub fn referencing_rules(rules: Vec<RuleRecord>, name: &str) -> (r: Vec<RuleRecord>)
    ensures
        r@ == spec_referencing(rules@, name@),
{
    let target = chars_of(name);
    let mut out: Vec<RuleRecord> = Vec::new();
    let mut rest = rules;
    let ghost all = rest@;
    while rest.len() > 0
        invariant
            rest.len() <= all.len(),
            rest@ == all.skip(all.len() - rest.len()),
            out@ == spec_referencing(all.take(all.len() - rest.len()), target@),
            target@ == name@,
        decreases rest.len(),
    {
        let ghost idx = all.len() - rest.len();
        let rule = rest.remove(0);
        proof {
            assert(rule == all[idx]);
            assert(all.take(idx + 1).drop_last() =~= all.take(idx));
            assert(all.take(idx + 1).last() == all[idx]);
            assert(rest@ =~= all.skip(all.len() - rest.len()));
        }
        let name_chars = chars_of(rule.name.as_str());
        let same = chars_eq(&name_chars, &target);
        if !same && references(rule.script.as_str(), name) {
            out.push(rule);
        }
    }
    proof {
        assert(all.take(all.len() as int) =~= all);
    }
    out
}


/// The change-impact listing never names the edited rule itself, lists only
/// rules that compose it, and keeps every rule of the scope that does.
pub proof fn law_referencing_rules(rules: Seq<RuleRecord>, name: Seq<char>)
    ensures
        forall|i: int|
            0 <= i < spec_referencing(rules, name).len() ==> composes(
                #[trigger] spec_referencing(rules, name)[i],
                name,
            ) && rules.contains(spec_referencing(rules, name)[i]),
        forall|j: int|
            0 <= j < rules.len() && composes(#[trigger] rules[j], name) ==> spec_referencing(
                rules,
                name,
            ).contains(rules[j]),
    decreases rules.len(),
{
    if rules.len() > 0 {
        let d = rules.drop_last();
        law_referencing_rules(d, name);
        let rest = spec_referencing(d, name);
        let cur = spec_referencing(rules, name);
        assert forall|i: int| 0 <= i < cur.len() implies composes(#[trigger] cur[i], name)
            && rules.contains(cur[i]) by {
            if i < rest.len() {
                assert(cur[i] == rest[i]);
                let k = choose|k: int| 0 <= k < d.len() && d[k] == rest[i];
                assert(rules[k] == d[k]);
            } else {
                assert(cur[i] == rules.last());
                assert(rules[rules.len() - 1] == rules.last());
            }
        }
        assert forall|j: int| 0 <= j < rules.len() && composes(#[trigger] rules[j], name)
            implies cur.contains(rules[j]) by {
            if j < d.len() {
                assert(d[j] == rules[j]);
                assert(rest.contains(d[j]));
                let k = choose|k: int| 0 <= k < rest.len() && rest[k] == d[j];
                assert(cur[k] == rest[k]);
            } else {
                assert(rules[j] == rules.last());
                assert(cur[cur.len() - 1] == rules.last());
            }
        }
    }
}


/// Resolve a rule name on a site: the site-scoped rule of that name wins, else
/// the org-level one; fail closed when neither exists. `site_hit` is the
/// site-scoped lookup (`None` when there is no site or no such rule) and
/// `org_hit` the org-level one.
pub fn resolve_rule(site_hit: Option<RuleRecord>, org_hit: Option<RuleRecord>) -> (r: Result<
    RuleRecord,
    StoreError,
>)
    ensures
        site_hit matches Some(s) ==> r == Ok::<RuleRecord, StoreError>(s),
        site_hit is None ==> (org_hit matches Some(o) ==> r == Ok::<RuleRecord, StoreError>(o)),
        site_hit is None && org_hit is None ==> (r matches Err(StoreError::NotFound(w)) && w@
            == "rule"@),
{
    match site_hit {
        Some(s) => Ok(s),
        None => match org_hit {
            Some(o) => Ok(o),
            None => Err(StoreError::NotFound("rule")),
        },
    }
}

} // verus!
