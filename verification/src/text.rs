//! Character-level text helpers shared by the keyexpr, rule and formatting
//! logic: decoding a string into its characters, building strings back, the
//! whitespace class that trimming uses, substring search, and splitting and
//! joining on a separator character.

use vstd::prelude::*;

verus! {

broadcast use vstd::string::group_string_axioms;

/// The characters of `s`, in order.
pub fn chars_of(s: &str) -> (v: Vec<char>)
    ensures
        v@ == s@,
{
    let mut v: Vec<char> = Vec::new();
    for c in it: s.chars()
        invariant
            v@ == it.seq().take(it.index() as int),
            it.seq() == s@,
    {
        v.push(c);
    }
    v
}

/// `String::push`: appends one character.
#[verifier::external_body]
fn push_char(s: &mut String, c: char)
    ensures
        final(s)@ == old(s)@.push(c),
{
    s.push(c);
}

/// The string whose characters are `v`.
pub fn string_of(v: &Vec<char>) -> (s: String)
    ensures
        s@ == v@,
{
    let mut s = String::new();
    let mut i: usize = 0;
    while i < v.len()
        invariant
            i <= v.len(),
            s@ == v@.take(i as int),
        decreases v.len() - i,
    {
        push_char(&mut s, v[i]);
        i = i + 1;
        assert(v@.take(i as int) =~= v@.take((i - 1) as int).push(v@[i - 1]));
    }
    assert(v@.take(v.len() as int) =~= v@);
    s
}

/// Whether two character sequences are equal.
pub fn chars_eq(a: &Vec<char>, b: &Vec<char>) -> (r: bool)
    ensures
        r == (a@ == b@),
{
    if a.len() != b.len() {
        return false;
    }
    let mut i: usize = 0;
    while i < a.len()
        invariant
            a.len() == b.len(),
            i <= a.len(),
            forall|j: int| 0 <= j < i ==> a@[j] == b@[j],
        decreases a.len() - i,
    {
        if a[i] != b[i] {
            return false;
        }
        i = i + 1;
    }
    assert(a@ =~= b@);
    true
}

/// Whether two strings hold the same characters.
pub fn str_eq(a: &str, b: &str) -> (r: bool)
    ensures
        r == (a@ == b@),
{
    let va = chars_of(a);
    let vb = chars_of(b);
    chars_eq(&va, &vb)
}

/// The Unicode `White_Space` property, which `char::is_whitespace` and
/// `str::trim` go by.
pub open spec fn spec_is_whitespace(c: char) -> bool {
    ||| ('\u{9}' <= c && c <= '\u{d}')
    ||| c == ' '
    ||| c == '\u{85}'
    ||| c == '\u{a0}'
    ||| c == '\u{1680}'
    ||| ('\u{2000}' <= c && c <= '\u{200a}')
    ||| c == '\u{2028}'
    ||| c == '\u{2029}'
    ||| c == '\u{202f}'
    ||| c == '\u{205f}'
    ||| c == '\u{3000}'
}

/// Whether `c` is a Unicode whitespace character.
pub fn is_whitespace(c: char) -> (r: bool)
    ensures
        r == spec_is_whitespace(c),
{
    ('\u{9}' <= c && c <= '\u{d}') || c == ' ' || c == '\u{85}' || c == '\u{a0}'
        || c == '\u{1680}' || ('\u{2000}' <= c && c <= '\u{200a}') || c == '\u{2028}'
        || c == '\u{2029}' || c == '\u{202f}' || c == '\u{205f}' || c == '\u{3000}'
}

/// A string that trims to nothing: every character is whitespace.
pub open spec fn spec_is_blank(s: Seq<char>) -> bool {
    forall|i: int| 0 <= i < s.len() ==> spec_is_whitespace(#[trigger] s[i])
}

/// Whether `s` is empty once surrounding whitespace is trimmed.
pub fn is_blank(s: &str) -> (r: bool)
    ensures
        r == spec_is_blank(s@),
{
    let v = chars_of(s);
    let mut i: usize = 0;
    while i < v.len()
        invariant
            v@ == s@,
            i <= v.len(),
            forall|j: int| 0 <= j < i ==> spec_is_whitespace(#[trigger] v@[j]),
        decreases v.len() - i,
    {
        if !is_whitespace(v[i]) {
            return false;
        }
        i = i + 1;
    }
    true
}

/// Index of the first non-whitespace character (the length when there is none).
pub open spec fn spec_trim_start(s: Seq<char>) -> int
    decreases s.len(),
{
    if s.len() == 0 {
        0
    } else if spec_is_whitespace(s[0]) {
        1 + spec_trim_start(s.drop_first())
    } else {
        0
    }
}

/// One past the last non-whitespace character (zero when there is none).
pub open spec fn spec_trim_end(s: Seq<char>) -> int
    decreases s.len(),
{
    if s.len() == 0 {
        0
    } else if spec_is_whitespace(s.last()) {
        spec_trim_end(s.drop_last())
    } else {
        s.len() as int
    }
}

/// `s` with leading and trailing whitespace removed.
pub open spec fn spec_trim(s: Seq<char>) -> Seq<char> {
    if spec_trim_start(s) >= spec_trim_end(s) {
        Seq::empty()
    } else {
        s.subrange(spec_trim_start(s), spec_trim_end(s))
    }
}

proof fn lemma_trim_start_stops(s: Seq<char>)
    ensures
        0 <= spec_trim_start(s) <= s.len(),
        spec_trim_start(s) < s.len() ==> !spec_is_whitespace(s[spec_trim_start(s)]),
    decreases s.len(),
{
    if s.len() > 0 && spec_is_whitespace(s[0]) {
        let t = s.drop_first();
        lemma_trim_start_stops(t);
        if spec_trim_start(t) < t.len() {
            assert(s[spec_trim_start(s)] == t[spec_trim_start(t)]);
        }
    }
}

proof fn lemma_trim_end_stops(s: Seq<char>)
    ensures
        0 <= spec_trim_end(s) <= s.len(),
        spec_trim_end(s) > 0 ==> !spec_is_whitespace(s[spec_trim_end(s) - 1]),
    decreases s.len(),
{
    if s.len() > 0 && spec_is_whitespace(s.last()) {
        let t = s.drop_last();
        lemma_trim_end_stops(t);
        if spec_trim_end(t) > 0 {
            assert(s[spec_trim_end(s) - 1] == t[spec_trim_end(t) - 1]);
        }
    }
}

/// Trimming is idempotent: a trimmed string has no surrounding whitespace left.
pub proof fn lemma_trim_idempotent(s: Seq<char>)
    ensures
        spec_trim(spec_trim(s)) == spec_trim(s),
{
    lemma_trim_start_stops(s);
    lemma_trim_end_stops(s);
    let t = spec_trim(s);
    if t.len() > 0 {
        let a = spec_trim_start(s);
        let b = spec_trim_end(s);
        assert(t[0] == s[a]);
        assert(t.last() == s[b - 1]);
        assert(spec_trim_start(t) == 0);
        assert(spec_trim_end(t) == t.len());
        assert(t.subrange(0, t.len() as int) =~= t);
    }
}

proof fn lemma_trim_start_skip(s: Seq<char>, i: int)
    requires
        0 <= i <= s.len(),
        forall|j: int| 0 <= j < i ==> spec_is_whitespace(#[trigger] s[j]),
    ensures
        spec_trim_start(s) == i + spec_trim_start(s.skip(i)),
    decreases i,
{
    if i > 0 {
        let t = s.drop_first();
        assert forall|j: int| 0 <= j < i - 1 implies spec_is_whitespace(#[trigger] t[j]) by {
            assert(t[j] == s[j + 1]);
        }
        lemma_trim_start_skip(t, i - 1);
        assert(t.skip(i - 1) =~= s.skip(i));
    } else {
        assert(s.skip(0) =~= s);
    }
}

proof fn lemma_trim_end_take(s: Seq<char>, j: int)
    requires
        0 <= j <= s.len(),
        forall|k: int| j <= k < s.len() ==> spec_is_whitespace(#[trigger] s[k]),
    ensures
        spec_trim_end(s) == spec_trim_end(s.take(j)),
    decreases s.len() - j,
{
    if j < s.len() {
        let t = s.drop_last();
        assert forall|k: int| j <= k < t.len() implies spec_is_whitespace(#[trigger] t[k]) by {
            assert(t[k] == s[k]);
        }
        lemma_trim_end_take(t, j);
        assert(t.take(j) =~= s.take(j));
    } else {
        assert(s.take(j) =~= s);
    }
}

/// `s` with its leading and trailing whitespace removed (`str::trim`).
pub fn trim_chars(v: &Vec<char>) -> (r: Vec<char>)
    ensures
        r@ == spec_trim(v@),
{
    let n = v.len();
    let mut start: usize = 0;
    while start < n && is_whitespace(v[start])
        invariant
            n == v.len(),
            start <= n,
            forall|j: int| 0 <= j < start ==> spec_is_whitespace(#[trigger] v@[j]),
        decreases n - start,
    {
        start = start + 1;
    }
    proof {
        lemma_trim_start_skip(v@, start as int);
        if start < n {
            assert(v@.skip(start as int)[0] == v@[start as int]);
        } else {
            assert(v@.skip(start as int).len() == 0);
        }
    }
    let mut end: usize = n;
    while end > start && is_whitespace(v[end - 1])
        invariant
            n == v.len(),
            start <= end <= n,
            forall|k: int| end <= k < n ==> spec_is_whitespace(#[trigger] v@[k]),
        decreases end,
    {
        end = end - 1;
    }
    proof {
        lemma_trim_end_take(v@, end as int);
        if end > start {
            assert(v@.take(end as int).last() == v@[end - 1]);
        } else if start < n {
            assert(!spec_is_whitespace(v@[start as int]));
            assert(false);
        } else {
            lemma_trim_end_zero(v@.take(end as int));
        }
    }
    let mut r: Vec<char> = Vec::new();
    let mut i = start;
    while i < end
        invariant
            n == v.len(),
            start <= i <= end <= n,
            r@ == v@.subrange(start as int, i as int),
        decreases end - i,
    {
        r.push(v[i]);
        i = i + 1;
        assert(r@ =~= v@.subrange(start as int, i as int));
    }
    r
}

proof fn lemma_trim_end_zero(s: Seq<char>)
    requires
        forall|k: int| 0 <= k < s.len() ==> spec_is_whitespace(#[trigger] s[k]),
    ensures
        spec_trim_end(s) == 0,
{
    lemma_trim_end_take(s, 0);
}


/// `needle` occurs in `hay` starting at index `i`.
pub open spec fn occurs_at(hay: Seq<char>, needle: Seq<char>, i: int) -> bool {
    0 <= i && i + needle.len() <= hay.len() && hay.subrange(i, i + needle.len()) == needle
}

/// Whether `needle` occurs in `hay` at index `i`.
fn matches_at(hay: &Vec<char>, needle: &Vec<char>, i: usize) -> (r: bool)
    requires
        i + needle.len() <= hay.len(),
    ensures
        r == occurs_at(hay@, needle@, i as int),
{
    let mut k: usize = 0;
    while k < needle.len()
        invariant
            i + needle.len() <= hay.len(),
            k <= needle.len(),
            forall|j: int| 0 <= j < k ==> hay@[i + j] == needle@[j],
        decreases needle.len() - k,
    {
        if hay[i + k] != needle[k] {
            assert(hay@.subrange(i as int, i + needle.len())[k as int] != needle@[k as int]);
            return false;
        }
        k = k + 1;
    }
    assert(hay@.subrange(i as int, i + needle.len()) =~= needle@);
    true
}

/// Whether `needle` occurs in `hay` at index `i` (false when it would run past
/// the end of `hay`).
pub fn occurs_at_index(hay: &Vec<char>, needle: &Vec<char>, i: usize) -> (r: bool)
    ensures
        r == occurs_at(hay@, needle@, i as int),
{
    if i > hay.len() || needle.len() > hay.len() - i {
        return false;
    }
    matches_at(hay, needle, i)
}


/// The pieces of `s` between occurrences of `sep` (`str::split` with a
/// character pattern): `n` separators give `n + 1` pieces, empty ones included.
pub open spec fn spec_split(s: Seq<char>, sep: char) -> Seq<Seq<char>>
    decreases s.len(),
{
    if s.len() == 0 {
        seq![Seq::empty()]
    } else {
        let rest = spec_split(s.drop_last(), sep);
        if s.last() == sep {
            rest.push(Seq::empty())
        } else {
            rest.update(rest.len() - 1, rest.last().push(s.last()))
        }
    }
}

/// The pieces concatenated with `sep` between neighbours (`[T]::join`).
pub open spec fn spec_join(parts: Seq<Seq<char>>, sep: char) -> Seq<char>
    decreases parts.len(),
{
    if parts.len() == 0 {
        Seq::empty()
    } else if parts.len() == 1 {
        parts[0]
    } else {
        spec_join(parts.drop_last(), sep).push(sep) + parts.last()
    }
}

pub proof fn lemma_split_nonempty(s: Seq<char>, sep: char)
    ensures
        spec_split(s, sep).len() >= 1,
    decreases s.len(),
{
    if s.len() > 0 {
        lemma_split_nonempty(s.drop_last(), sep);
    }
}

/// A string without the separator splits into itself alone.
pub proof fn lemma_split_no_sep(s: Seq<char>, sep: char)
    requires
        !s.contains(sep),
    ensures
        spec_split(s, sep) == seq![s],
    decreases s.len(),
{
    if s.len() > 0 {
        let t = s.drop_last();
        assert(!t.contains(sep)) by {
            if t.contains(sep) {
                let k = choose|k: int| 0 <= k < t.len() && t[k] == sep;
                assert(s[k] == sep);
            }
        }
        lemma_split_no_sep(t, sep);
        assert(s.last() != sep) by {
            assert(s[s.len() - 1] == s.last());
        }
        assert(t.push(s.last()) =~= s);
        assert(spec_split(s, sep) =~= seq![s]);
    } else {
        assert(s =~= Seq::<char>::empty());
    }
}

/// Splitting across one separator splits each side.
pub proof fn lemma_split_concat(a: Seq<char>, b: Seq<char>, sep: char)
    ensures
        spec_split(a + seq![sep] + b, sep) == spec_split(a, sep) + spec_split(b, sep),
    decreases b.len(),
{
    lemma_split_nonempty(a, sep);
    if b.len() == 0 {
        let s = a + seq![sep] + b;
        assert(s.drop_last() =~= a);
        assert(spec_split(b, sep) =~= seq![Seq::<char>::empty()]);
        assert(spec_split(s, sep) =~= spec_split(a, sep) + spec_split(b, sep));
    } else {
        let b1 = b.drop_last();
        let x = b.last();
        let s = a + seq![sep] + b;
        assert(s.drop_last() =~= a + seq![sep] + b1);
        assert(s.last() == x);
        lemma_split_concat(a, b1, sep);
        lemma_split_nonempty(b1, sep);
        let l = spec_split(a, sep);
        let r = spec_split(b1, sep);
        if x == sep {
            assert(spec_split(s, sep) =~= l + r.push(Seq::empty()));
        } else {
            assert((l + r).last() == r.last());
            assert(spec_split(s, sep) =~= l + r.update(r.len() - 1, r.last().push(x)));
        }
    }
}

proof fn lemma_join_push_char(ps: Seq<Seq<char>>, x: char, sep: char)
    requires
        ps.len() >= 1,
    ensures
        spec_join(ps.update(ps.len() - 1, ps.last().push(x)), sep) == spec_join(ps, sep).push(x),
{
    let qs = ps.update(ps.len() - 1, ps.last().push(x));
    if ps.len() == 1 {
    } else {
        assert(qs.drop_last() =~= ps.drop_last());
        assert(qs.last() == ps.last().push(x));
        assert(spec_join(qs, sep) =~= spec_join(ps, sep).push(x));
    }
}

/// Joining the pieces of a split gives back the original string.
pub proof fn lemma_join_split(s: Seq<char>, sep: char)
    ensures
        spec_join(spec_split(s, sep), sep) == s,
    decreases s.len(),
{
    if s.len() > 0 {
        let t = s.drop_last();
        lemma_join_split(t, sep);
        lemma_split_nonempty(t, sep);
        let ps = spec_split(t, sep);
        if s.last() == sep {
            let qs = ps.push(Seq::<char>::empty());
            assert(qs.drop_last() =~= ps);
            assert(spec_join(qs, sep) =~= t.push(sep));
        } else {
            lemma_join_push_char(ps, s.last(), sep);
        }
        assert(t.push(s.last()) =~= s);
    }
}

/// Joining two non-empty runs of pieces puts one separator between them.
pub proof fn lemma_join_concat(a: Seq<Seq<char>>, b: Seq<Seq<char>>, sep: char)
    requires
        a.len() >= 1,
        b.len() >= 1,
    ensures
        spec_join(a + b, sep) == spec_join(a, sep) + seq![sep] + spec_join(b, sep),
    decreases b.len(),
{
    if b.len() == 1 {
        assert((a + b).drop_last() =~= a);
        assert(spec_join(a + b, sep) =~= spec_join(a, sep) + seq![sep] + spec_join(b, sep));
    } else {
        let b1 = b.drop_last();
        lemma_join_concat(a, b1, sep);
        assert((a + b).drop_last() =~= a + b1);
        assert((a + b).last() == b.last());
        assert(spec_join(a + b, sep) =~= spec_join(a, sep) + seq![sep] + spec_join(b, sep));
    }
}

/// The character sequences held by a list of character vectors.
pub open spec fn views(v: Seq<Vec<char>>) -> Seq<Seq<char>> {
    v.map_values(|x: Vec<char>| x@)
}

/// The pieces of `s` between occurrences of `sep`.
pub fn split_chars(s: &Vec<char>, sep: char) -> (parts: Vec<Vec<char>>)
    ensures
        views(parts@) == spec_split(s@, sep),
{
    let mut done: Vec<Vec<char>> = Vec::new();
    let mut cur: Vec<char> = Vec::new();
    let mut i: usize = 0;
    while i < s.len()
        invariant
            i <= s.len(),
            views(done@).push(cur@) == spec_split(s@.take(i as int), sep),
        decreases s.len() - i,
    {
        let ghost before = spec_split(s@.take(i as int), sep);
        let c = s[i];
        assert(s@.take(i + 1).drop_last() =~= s@.take(i as int));
        assert(s@.take(i + 1).last() == c);
        if c == sep {
            let finished = cur;
            let ghost old_done = done@;
            done.push(finished);
            assert(done@ =~= old_done.push(finished));
            cur = Vec::new();
            assert(views(done@).push(cur@) =~= before.push(Seq::empty()));
        } else {
            cur.push(c);
            assert(views(done@).push(cur@) =~= before.update(
                before.len() - 1,
                before.last().push(c),
            ));
        }
        i = i + 1;
    }
    assert(s@.take(s.len() as int) =~= s@);
    let ghost old_done = done@;
    let ghost last = cur@;
    done.push(cur);
    assert(done@ =~= old_done.push(done@.last()));
    assert(views(done@) =~= views(old_done).push(last));
    done
}

/// `parts[lo..hi]` concatenated with `sep` between neighbours.
pub fn join_chars(parts: &Vec<Vec<char>>, lo: usize, hi: usize, sep: char) -> (r: Vec<char>)
    requires
        lo <= hi <= parts.len(),
    ensures
        r@ == spec_join(views(parts@).subrange(lo as int, hi as int), sep),
{
    let mut r: Vec<char> = Vec::new();
    if lo == hi {
        return r;
    }
    let mut i = lo;
    while i < hi
        invariant
            lo <= i <= hi <= parts.len(),
            lo < hi,
            i == lo ==> r@ == Seq::<char>::empty(),
            i > lo ==> r@ == spec_join(views(parts@).subrange(lo as int, i as int), sep),
        decreases hi - i,
    {
        let ghost prev = r@;
        if i > lo {
            r.push(sep);
        }
        let part = &parts[i];
        let mut k: usize = 0;
        let ghost base = r@;
        while k < part.len()
            invariant
                k <= part.len(),
                r@ == base + part@.take(k as int),
            decreases part.len() - k,
        {
            r.push(part[k]);
            k = k + 1;
            assert(r@ =~= base + part@.take(k as int));
        }
        assert(part@.take(part.len() as int) =~= part@);
        let ghost sub = views(parts@).subrange(lo as int, i + 1);
        assert(sub.last() == views(parts@)[i as int]);
        if i > lo {
            assert(sub.drop_last() =~= views(parts@).subrange(lo as int, i as int));
        } else {
            assert(sub.len() == 1);
        }
        assert(r@ =~= spec_join(sub, sep));
        i = i + 1;
    }
    r
}


/// The decimal digit for `d < 10`.
pub open spec fn digit_char(d: nat) -> char {
    if d == 0 { '0' } else if d == 1 { '1' } else if d == 2 { '2' } else if d == 3 { '3' }
    else if d == 4 { '4' } else if d == 5 { '5' } else if d == 6 { '6' } else if d == 7 { '7' }
    else if d == 8 { '8' } else { '9' }
}

/// The decimal rendering of `n` (what `{}` formats an unsigned integer as).
pub open spec fn spec_decimal(n: nat) -> Seq<char>
    decreases n,
{
    if n < 10 {
        seq![digit_char(n)]
    } else {
        spec_decimal(n / 10).push(digit_char(n % 10))
    }
}

fn digit(d: u64) -> (c: char)
    requires
        d < 10,
    ensures
        c == digit_char(d as nat),
{
    if d == 0 { '0' } else if d == 1 { '1' } else if d == 2 { '2' } else if d == 3 { '3' }
    else if d == 4 { '4' } else if d == 5 { '5' } else if d == 6 { '6' } else if d == 7 { '7' }
    else if d == 8 { '8' } else { '9' }
}

/// Append the decimal rendering of `n` to `out`.
pub fn push_decimal(out: &mut Vec<char>, n: u128)
    ensures
        final(out)@ == old(out)@ + spec_decimal(n as nat),
    decreases n,
{
    if n < 10 {
        out.push(digit(n as u64));
        assert(spec_decimal(n as nat) =~= seq![digit_char(n as nat)]);
    } else {
        push_decimal(out, n / 10);
        out.push(digit((n % 10) as u64));
        assert(spec_decimal(n as nat) == spec_decimal((n / 10) as nat).push(
            digit_char((n % 10) as nat),
        ));
        assert(final(out)@ =~= old(out)@ + spec_decimal(n as nat));
    }
}

/// Append the characters of `s` to `out`.
pub fn push_str(out: &mut Vec<char>, s: &str)
    ensures
        final(out)@ == old(out)@ + s@,
{
    let v = chars_of(s);
    let mut i: usize = 0;
    let ghost start = out@;
    while i < v.len()
        invariant
            v@ == s@,
            i <= v.len(),
            out@ == start + v@.take(i as int),
        decreases v.len() - i,
    {
        out.push(v[i]);
        i = i + 1;
        assert(out@ =~= start + v@.take(i as int));
    }
    assert(v@.take(v.len() as int) =~= v@);
}

/// Append the characters of `v` to `out`.
pub fn push_chars(out: &mut Vec<char>, v: &Vec<char>)
    ensures
        final(out)@ == old(out)@ + v@,
{
    let mut i: usize = 0;
    let ghost start = out@;
    while i < v.len()
        invariant
            i <= v.len(),
            out@ == start + v@.take(i as int),
        decreases v.len() - i,
    {
        out.push(v[i]);
        i = i + 1;
        assert(out@ =~= start + v@.take(i as int));
    }
    assert(v@.take(v.len() as int) =~= v@);
}


/// The lowercase hexadecimal digit for `d < 16`.
pub open spec fn hex_char(d: nat) -> char {
    if d < 10 {
        digit_char(d)
    } else if d == 10 { 'a' } else if d == 11 { 'b' } else if d == 12 { 'c' }
    else if d == 13 { 'd' } else if d == 14 { 'e' } else { 'f' }
}

/// The lowest `width` hexadecimal digits of `n`, most significant first.
pub open spec fn spec_hex(n: nat, width: nat) -> Seq<char>
    decreases width,
{
    if width == 0 {
        Seq::empty()
    } else {
        spec_hex(n / 16, (width - 1) as nat).push(hex_char(n % 16))
    }
}

fn hex_digit(d: u128) -> (c: char)
    requires
        d < 16,
    ensures
        c == hex_char(d as nat),
{
    if d < 10 {
        digit(d as u64)
    } else if d == 10 { 'a' } else if d == 11 { 'b' } else if d == 12 { 'c' }
    else if d == 13 { 'd' } else if d == 14 { 'e' } else { 'f' }
}

/// Append the lowest `width` hexadecimal digits of `n`.
pub fn push_hex(out: &mut Vec<char>, n: u128, width: u32)
    ensures
        final(out)@ == old(out)@ + spec_hex(n as nat, width as nat),
    decreases width,
{
    if width > 0 {
        push_hex(out, n / 16, width - 1);
        out.push(hex_digit(n % 16));
        assert(final(out)@ =~= old(out)@ + spec_hex(n as nat, width as nat));
    } else {
        assert(final(out)@ =~= old(out)@ + spec_hex(n as nat, width as nat));
    }
}

/// The hyphenated lowercase rendering of a 128-bit UUID value
/// (`xxxxxxxx-xxxx-xxxx-xxxx-xxxxxxxxxxxx`), the form a UUID displays as.
pub open spec fn spec_uuid_text(id: u128) -> Seq<char> {
    let h = spec_hex(id as nat, 32);
    h.subrange(0, 8) + seq!['-'] + h.subrange(8, 12) + seq!['-'] + h.subrange(12, 16) + seq!['-']
        + h.subrange(16, 20) + seq!['-'] + h.subrange(20, 32)
}

proof fn lemma_hex_len(n: nat, width: nat)
    ensures
        spec_hex(n, width).len() == width,
    decreases width,
{
    if width > 0 {
        lemma_hex_len(n / 16, (width - 1) as nat);
    }
}

/// Append the hyphenated rendering of a UUID value.
pub fn push_uuid(out: &mut Vec<char>, id: u128)
    ensures
        final(out)@ == old(out)@ + spec_uuid_text(id),
{
    let mut h: Vec<char> = Vec::new();
    push_hex(&mut h, id, 32);
    proof {
        lemma_hex_len(id as nat, 32);
        assert(h@ =~= spec_hex(id as nat, 32));
    }
    let ghost start = out@;
    push_range(out, &h, 0, 8);
    out.push('-');
    push_range(out, &h, 8, 12);
    out.push('-');
    push_range(out, &h, 12, 16);
    out.push('-');
    push_range(out, &h, 16, 20);
    out.push('-');
    push_range(out, &h, 20, 32);
    proof {
        assert(final(out)@ =~= start + spec_uuid_text(id));
    }
}

/// Append `v[lo..hi]` to `out`.
pub fn push_range(out: &mut Vec<char>, v: &Vec<char>, lo: usize, hi: usize)
    requires
        lo <= hi <= v.len(),
    ensures
        final(out)@ == old(out)@ + v@.subrange(lo as int, hi as int),
{
    let ghost start = out@;
    let mut i = lo;
    while i < hi
        invariant
            lo <= i <= hi <= v.len(),
            out@ == start + v@.subrange(lo as int, i as int),
        decreases hi - i,
    {
        out.push(v[i]);
        i = i + 1;
        assert(out@ =~= start + v@.subrange(lo as int, i as int));
    }
}

} // verus!
