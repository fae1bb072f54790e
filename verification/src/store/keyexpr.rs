//! Keyexpr addressing for the data plane: a point is named
//! `{org}/{site}/{equip-path}/{point}` (the equip path may itself hold
//! slashes, for nested equips) and a site `{org}/{site}`.

use vstd::prelude::*;

use crate::text::{
    chars_of, join_chars, lemma_join_concat, lemma_join_split, lemma_split_concat,
    lemma_split_no_sep, push_str, spec_join, spec_split, split_chars, string_of, views,
};

verus! {

broadcast use vstd::string::group_string_axioms;

/// The keyexpr prefix of a point: its four parts joined with `/`.
pub open spec fn spec_point_keyexpr(
    org: Seq<char>,
    site: Seq<char>,
    equip_path: Seq<char>,
    point: Seq<char>,
) -> Seq<char> {
    org + seq!['/'] + site + seq!['/'] + equip_path + seq!['/'] + point
}

/// The parts of a `{org}/{site}/{equip-path}/{point}` prefix: the first two
/// segments, the middle segments rejoined, and the last; `None` with fewer
/// than four segments.
pub open spec fn spec_split_point_prefix(prefix: Seq<char>) -> Option<
    (Seq<char>, Seq<char>, Seq<char>, Seq<char>),
> {
    let parts = spec_split(prefix, '/');
    if parts.len() < 4 {
        None
    } else {
        Some(
            (
                parts[0],
                parts[1],
                spec_join(parts.subrange(2, parts.len() - 1), '/'),
                parts[parts.len() - 1],
            ),
        )
    }
}

/// The views of four strings.
pub open spec fn parts_view(p: (String, String, String, String)) -> (
    Seq<char>,
    Seq<char>,
    Seq<char>,
    Seq<char>,
) {
    (p.0@, p.1@, p.2@, p.3@)
}

/// Split a `{org}/{site}/{equip-path}/{point}` prefix into its parts. The
/// equip-path may contain slashes (nested equips), so org and site are the
/// first two segments and the point slug is the last.
pub fn split_point_prefix(prefix: &str) -> (r: Option<(String, String, String, String)>)
    ensures
        match r {
            Some(p) => spec_split_point_prefix(prefix@) == Some(parts_view(p)),
            None => spec_split_point_prefix(prefix@) is None,
        },
{
    let v = chars_of(prefix);
    let parts = split_chars(&v, '/');
    let n = parts.len();
    if n < 4 {
        return None;
    }
    let org = string_of(&parts[0]);
    let site = string_of(&parts[1]);
    let middle = join_chars(&parts, 2, n - 1, '/');
    let equip_path = string_of(&middle);
    let point = string_of(&parts[n - 1]);
    proof {
        assert(views(parts@)[0] == parts@[0]@);
        assert(views(parts@)[1] == parts@[1]@);
        assert(views(parts@)[n - 1] == parts@[n - 1]@);
    }
    Some((org, site, equip_path, point))
}

/// The keyexpr prefix of a point, `{org}/{site}/{equip-path}/{point}`.
pub fn point_keyexpr(org: &str, site: &str, equip_path: &str, point: &str) -> (r: String)
    ensures
        r@ == spec_point_keyexpr(org@, site@, equip_path@, point@),
{
    let mut out: Vec<char> = Vec::new();
    push_str(&mut out, org);
    out.push('/');
    push_str(&mut out, site);
    out.push('/');
    push_str(&mut out, equip_path);
    out.push('/');
    push_str(&mut out, point);
    proof {
        assert(out@ =~= spec_point_keyexpr(org@, site@, equip_path@, point@));
    }
    string_of(&out)
}

/// The `{org}/{site}` prefix of a site.
pub open spec fn spec_site_prefix(org: Seq<char>, site: Seq<char>) -> Seq<char> {
    org + seq!['/'] + site
}

/// The `{org}/{site}` prefix a node owns for one of its sites.
pub fn site_prefix(org: &str, site: &str) -> (r: String)
    ensures
        r@ == spec_site_prefix(org@, site@),
{
    let mut out: Vec<char> = Vec::new();
    push_str(&mut out, org);
    out.push('/');
    push_str(&mut out, site);
    proof {
        assert(out@ =~= spec_site_prefix(org@, site@));
    }
    string_of(&out)
}

/// Split an `{org}/{site}` prefix into its two segments; `None` unless it has
/// exactly two.
pub fn split_site_prefix(prefix: &str) -> (r: Option<(String, String)>)
    ensures
        match r {
            Some((o, s)) => spec_split(prefix@, '/') == seq![o@, s@],
            None => spec_split(prefix@, '/').len() != 2,
        },
{
    let v = chars_of(prefix);
    let parts = split_chars(&v, '/');
    if parts.len() != 2 {
        return None;
    }
    let org = string_of(&parts[0]);
    let site = string_of(&parts[1]);
    proof {
        assert(views(parts@) =~= seq![org@, site@]);
    }
    Some((org, site))
}

/// A point's keyexpr splits back into the parts that named it, provided the
/// org, site and point slugs hold no `/` (the equip path may).
pub proof fn law_point_keyexpr_roundtrip(
    org: Seq<char>,
    site: Seq<char>,
    equip_path: Seq<char>,
    point: Seq<char>,
)
    requires
        !org.contains('/'),
        !site.contains('/'),
        !point.contains('/'),
    ensures
        spec_split_point_prefix(spec_point_keyexpr(org, site, equip_path, point)) == Some(
            (org, site, equip_path, point),
        ),
{
    let k = spec_point_keyexpr(org, site, equip_path, point);
    let rest1 = site + seq!['/'] + equip_path + seq!['/'] + point;
    let rest2 = equip_path + seq!['/'] + point;
    assert(k =~= org + seq!['/'] + rest1);
    assert(rest1 =~= site + seq!['/'] + rest2);
    lemma_split_concat(org, rest1, '/');
    lemma_split_concat(site, rest2, '/');
    lemma_split_concat(equip_path, point, '/');
    lemma_split_no_sep(org, '/');
    lemma_split_no_sep(site, '/');
    lemma_split_no_sep(point, '/');
    crate::text::lemma_split_nonempty(equip_path, '/');
    let e = spec_split(equip_path, '/');
    let parts = spec_split(k, '/');
    assert(parts =~= seq![org] + (seq![site] + (e + seq![point])));
    assert(parts.subrange(2, parts.len() - 1) =~= e);
    lemma_join_split(equip_path, '/');
}

/// Any prefix that splits into parts is the keyexpr those parts name.
pub proof fn law_split_point_prefix_rejoins(prefix: Seq<char>)
    requires
        spec_split_point_prefix(prefix) is Some,
    ensures
        ({
            let (o, s, e, p) = spec_split_point_prefix(prefix).unwrap();
            spec_point_keyexpr(o, s, e, p) == prefix
        }),
{
    let parts = spec_split(prefix, '/');
    let n = parts.len();
    let mid = parts.subrange(2, n - 1);
    let a = seq![parts[0]];
    let b = seq![parts[1]];
    let c = seq![parts[n - 1]];
    assert(parts =~= a + (b + (mid + c)));
    lemma_join_split(prefix, '/');
    lemma_join_concat(mid, c, '/');
    lemma_join_concat(b, mid + c, '/');
    lemma_join_concat(a, b + (mid + c), '/');
    assert(spec_join(a, '/') == parts[0]);
    assert(spec_join(b, '/') == parts[1]);
    assert(spec_join(c, '/') == parts[n - 1]);
    assert(spec_point_keyexpr(parts[0], parts[1], spec_join(mid, '/'), parts[n - 1]) =~= prefix);
}

} // verus!
