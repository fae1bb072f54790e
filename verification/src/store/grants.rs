//! RBAC grant rows (the Layer-2 ACL): a permission pinned on a resource (or
//! `*`) for a subject (a user or a team). Grants add access, never subtract.

use vstd::prelude::*;

use super::timestamps::Timestamp;
use crate::text::{push_decimal, push_str, spec_decimal, string_of};

verus! {

broadcast use vstd::string::group_string_axioms;

/// Whether a grant's subject is a user or a team.
#[derive(Debug, Clone, Copy, PartialEq, Eq, Structural)]
pub enum SubjectKind {
    User,
    Team,
}

/// The permission a grant confers. Ordered: `Admin` ⊇ `Write` ⊇ `Read`, so a
/// higher grant satisfies a lower required action.
#[derive(Debug, Clone, Copy, PartialEq, Eq, Structural, PartialOrd, Ord)]
pub enum Permission {
    Read,
    Write,
    Admin,
}

impl SubjectKind {
    /// The subject kind's stored token.
    pub open spec fn token(self) -> Seq<char> {
        match self {
            SubjectKind::User => seq!['u', 's', 'e', 'r'],
            SubjectKind::Team => seq!['t', 'e', 'a', 'm'],
        }
    }

    /// The stored token (`user` / `team`).
    pub fn as_str(self) -> (r: &'static str)
        ensures
            r@ == self.token(),
    {
        proof {
            reveal_strlit("user");
            reveal_strlit("team");
            assert("user"@ =~= SubjectKind::User.token());
            assert("team"@ =~= SubjectKind::Team.token());
        }
        match self {
            SubjectKind::User => "user",
            SubjectKind::Team => "team",
        }
    }

    /// The subject kind a stored token names, if any.
    pub fn parse(s: &str) -> (r: Option<SubjectKind>)
        ensures
            r matches Some(k) ==> k.token() == s@,
            r is None ==> (forall|k: SubjectKind| k.token() != s@),
    {
        proof {
            reveal_strlit("user");
            reveal_strlit("team");
            assert("user"@ =~= SubjectKind::User.token());
            assert("team"@ =~= SubjectKind::Team.token());
        }
        if crate::text::str_eq(s, "user") {
            Some(SubjectKind::User)
        } else if crate::text::str_eq(s, "team") {
            Some(SubjectKind::Team)
        } else {
            proof {
                assert forall|k: SubjectKind| k.token() != s@ by {
                    match k {
                        SubjectKind::User => {},
                        SubjectKind::Team => {},
                    }
                }
            }
            None
        }
    }
}

impl Permission {
    /// The rank of a permission in the containment order.
    pub open spec fn rank(self) -> int {
        match self {
            Permission::Read => 0,
            Permission::Write => 1,
            Permission::Admin => 2,
        }
    }

    /// The permission's stored token.
    pub open spec fn token(self) -> Seq<char> {
        match self {
            Permission::Read => seq!['r', 'e', 'a', 'd'],
            Permission::Write => seq!['w', 'r', 'i', 't', 'e'],
            Permission::Admin => seq!['a', 'd', 'm', 'i', 'n'],
        }
    }

    /// The stored token (`read` / `write` / `admin`).
    pub fn as_str(self) -> (r: &'static str)
        ensures
            r@ == self.token(),
    {
        proof {
            reveal_strlit("read");
            reveal_strlit("write");
            reveal_strlit("admin");
            assert("read"@ =~= Permission::Read.token());
            assert("write"@ =~= Permission::Write.token());
            assert("admin"@ =~= Permission::Admin.token());
        }
        match self {
            Permission::Read => "read",
            Permission::Write => "write",
            Permission::Admin => "admin",
        }
    }

    /// The permission a stored token names, if any.
    pub fn parse(s: &str) -> (r: Option<Permission>)
        ensures
            r matches Some(p) ==> p.token() == s@,
            r is None ==> (forall|p: Permission| p.token() != s@),
    {
        proof {
            reveal_strlit("read");
            reveal_strlit("write");
            reveal_strlit("admin");
            assert("read"@ =~= Permission::Read.token());
            assert("write"@ =~= Permission::Write.token());
            assert("admin"@ =~= Permission::Admin.token());
        }
        if crate::text::str_eq(s, "read") {
            Some(Permission::Read)
        } else if crate::text::str_eq(s, "write") {
            Some(Permission::Write)
        } else if crate::text::str_eq(s, "admin") {
            Some(Permission::Admin)
        } else {
            proof {
                assert forall|p: Permission| p.token() != s@ by {
                    match p {
                        Permission::Read => {},
                        Permission::Write => {},
                        Permission::Admin => {},
                    }
                }
            }
            None
        }
    }

    /// True when holding this permission satisfies a request for `required`.
    pub fn satisfies(self, required: Permission) -> (r: bool)
        ensures
            r == (self.rank() >= required.rank()),
    {
        match (self, required) {
            (_, Permission::Read) => true,
            (Permission::Read, _) => false,
            (_, Permission::Write) => true,
            (Permission::Admin, Permission::Admin) => true,
            _ => false,
        }
    }
}

/// Every permission satisfies a request for itself.
pub proof fn law_satisfies_reflexive(p: Permission)
    ensures
        p.rank() >= p.rank(),
{
}

/// Satisfaction chains: `a ⊇ b` and `b ⊇ c` give `a ⊇ c`.
pub proof fn law_satisfies_transitive(a: Permission, b: Permission, c: Permission)
    requires
        a.rank() >= b.rank(),
        b.rank() >= c.rank(),
    ensures
        a.rank() >= c.rank(),
{
}

/// Two permissions that satisfy each other are the same permission.
pub proof fn law_satisfies_antisymmetric(a: Permission, b: Permission)
    requires
        a.rank() >= b.rank(),
        b.rank() >= a.rank(),
    ensures
        a == b,
{
}

/// Any two permissions are comparable: one satisfies the other.
pub proof fn law_satisfies_total(a: Permission, b: Permission)
    ensures
        a.rank() >= b.rank() || b.rank() >= a.rank(),
{
}

/// Distinct permissions have distinct tokens, so a stored token reads back as
/// the permission that wrote it.
pub proof fn law_permission_token_roundtrip(a: Permission, b: Permission)
    requires
        a.token() == b.token(),
    ensures
        a == b,
{
    if a != b {
        match (a, b) {
            (Permission::Read, Permission::Write) => { assert(a.token().len() != b.token().len()); },
            (Permission::Write, Permission::Read) => { assert(a.token().len() != b.token().len()); },
            (Permission::Read, Permission::Admin) => { assert(a.token().len() != b.token().len()); },
            (Permission::Admin, Permission::Read) => { assert(a.token().len() != b.token().len()); },
            (Permission::Write, Permission::Admin) => { assert(a.token()[0] != b.token()[0]); },
            (Permission::Admin, Permission::Write) => { assert(a.token()[0] != b.token()[0]); },
            _ => {},
        }
    }
}

/// Distinct subject kinds have distinct tokens.
pub proof fn law_subject_kind_token_roundtrip(a: SubjectKind, b: SubjectKind)
    requires
        a.token() == b.token(),
    ensures
        a == b,
{
    if a != b {
        assert(a.token()[0] != b.token()[0]);
    }
}

impl std::str::FromStr for Permission {
    type Err = ();

    /// Parse a stored permission token; `Err(())` for anything else.
    fn from_str(s: &str) -> Result<Permission, ()> {
        match Permission::parse(s) {
            Some(p) => Ok(p),
            None => Err(()),
        }
    }
}

/// One `grants` row.
#[derive(Debug, Clone, PartialEq, Eq)]
pub struct GrantRecord {
    pub id: u128,
    pub org: String,
    pub subject_kind: SubjectKind,
    /// The user or team id (a UUID string).
    pub subject_id: String,
    /// The resource kind (`dashboard`, `board`, `rule`).
    pub resource_kind: String,
    /// The textual resource address, or `*` for all-of-kind within `org`.
    pub resource_ref: String,
    pub permission: Permission,
    /// Creation instant.
    pub created_at: Timestamp,
}

/// The grant columns, in row order.
pub open spec fn grant_cols() -> Seq<char> {
    "id, org, subject_kind, subject_id, resource_kind, resource_ref, permission, created_at"@
}

/// The `i`-th `(subject_kind, subject_id)` predicate: parameters `2 + 2i` and
/// `3 + 2i` (the org is parameter 1), written with the dialect's marker.
pub open spec fn subject_clause(i: nat, marker: char) -> Seq<char> {
    "(subject_kind = "@ + seq![marker] + spec_decimal(2 + 2 * i) + " AND subject_id = "@
        + seq![marker] + spec_decimal(3 + 2 * i) + ")"@
}

/// The first `n` subject predicates joined with ` OR `.
pub open spec fn subject_clauses(n: nat, marker: char) -> Seq<char>
    decreases n,
{
    if n == 0 {
        Seq::empty()
    } else if n == 1 {
        subject_clause(0, marker)
    } else {
        subject_clauses((n - 1) as nat, marker) + " OR "@ + subject_clause((n - 1) as nat, marker)
    }
}

/// The statement reading every grant in an org held by any of `n` subjects.
pub open spec fn grants_for_subjects_sql(n: nat, marker: char) -> Seq<char> {
    "SELECT "@ + grant_cols() + " FROM grants WHERE org = "@ + seq![marker] + "1 AND ("@
        + subject_clauses(n, marker) + ")"@
}

/// The grants query is a disjunction over the subjects: for one subject it
/// reads `… WHERE org = ?1 AND ((subject_kind = ?2 AND subject_id = ?3))`, and
/// each further subject adds exactly ` OR ` and its own predicate (binding the
/// next two parameters) before the closing parenthesis.
pub proof fn law_subjects_are_or_ed(n: nat, marker: char)
    ensures
        grants_for_subjects_sql(1, marker) == "SELECT "@
            + "id, org, subject_kind, subject_id, resource_kind, resource_ref, permission, created_at"@
            + " FROM grants WHERE org = "@
            + seq![marker] + "1 AND ("@ + "(subject_kind = "@ + seq![marker] + spec_decimal(2)
            + " AND subject_id = "@ + seq![marker] + spec_decimal(3) + ")"@ + ")"@,
        n >= 1 ==> ({
            let q = grants_for_subjects_sql(n, marker);
            grants_for_subjects_sql(n + 1, marker) == q.take(q.len() - 1) + " OR "@
                + "(subject_kind = "@ + seq![marker] + spec_decimal(2 + 2 * n) + " AND subject_id = "@
                + seq![marker] + spec_decimal(3 + 2 * n) + ")"@ + ")"@
        }),
{
    let head = "SELECT "@ + grant_cols() + " FROM grants WHERE org = "@ + seq![marker] + "1 AND ("@;
    assert(grants_for_subjects_sql(1, marker) =~= head + subject_clause(0, marker) + ")"@);
    assert(subject_clause(0, marker) == "(subject_kind = "@ + seq![marker] + spec_decimal(2)
        + " AND subject_id = "@ + seq![marker] + spec_decimal(3) + ")"@);
    assert(grants_for_subjects_sql(1, marker) =~= "SELECT "@ + grant_cols() + " FROM grants WHERE org = "@
            + seq![marker] + "1 AND ("@ + "(subject_kind = "@ + seq![marker] + spec_decimal(2)
            + " AND subject_id = "@ + seq![marker] + spec_decimal(3) + ")"@ + ")"@);
    if n >= 1 {
        let q = grants_for_subjects_sql(n, marker);
        assert(q =~= head + subject_clauses(n, marker) + ")"@);
        reveal_strlit(")");
        assert(")"@.len() == 1);
        assert(q.take(q.len() - 1) =~= head + subject_clauses(n, marker));
        assert(subject_clauses(n + 1, marker) == subject_clauses(n, marker) + " OR "@ + subject_clause(
            n,
            marker,
        ));
        assert(grants_for_subjects_sql(n + 1, marker) =~= q.take(q.len() - 1) + " OR "@
            + "(subject_kind = "@ + seq![marker] + spec_decimal(2 + 2 * n) + " AND subject_id = "@
            + seq![marker] + spec_decimal(3 + 2 * n) + ")"@ + ")"@);
    }
}

/// The query text for "every grant in an org held by any of `n` subjects",
/// with `marker` the dialect's placeholder sigil (`?` for SQLite, `$` for
/// Postgres). The org binds as parameter 1 and subject `i` as parameters
/// `2 + 2i` (kind) and `3 + 2i` (id); nothing but placeholders reaches the
/// text. `None` for no subjects: the principal then holds no grants, and no
/// query is needed.
pub fn grants_for_subjects_query(n: usize, marker: char) -> (r: Option<String>)
    ensures
        n == 0 ==> r is None,
        n > 0 ==> (r matches Some(q) && q@ == grants_for_subjects_sql(n as nat, marker)),
{
    if n == 0 {
        return None;
    }
    let mut out: Vec<char> = Vec::new();
    push_str(&mut out, "SELECT ");
    push_str(&mut out, "id, org, subject_kind, subject_id, resource_kind, resource_ref, permission, created_at");
    push_str(&mut out, " FROM grants WHERE org = ");
    out.push(marker);
    push_str(&mut out, "1 AND (");
    let ghost head = out@;
    let mut i: usize = 0;
    while i < n
        invariant
            i <= n,
            out@ == head + subject_clauses(i as nat, marker),
        decreases n - i,
    {
        let ghost prev = out@;
        if i > 0 {
            push_str(&mut out, " OR ");
        }
        push_str(&mut out, "(subject_kind = ");
        out.push(marker);
        push_decimal(&mut out, 2 + 2 * (i as u128));
        push_str(&mut out, " AND subject_id = ");
        out.push(marker);
        push_decimal(&mut out, 3 + 2 * (i as u128));
        push_str(&mut out, ")");
        proof {
            if i > 0 {
                assert(out@ =~= prev + " OR "@ + subject_clause(i as nat, marker));
            } else {
                assert(out@ =~= prev + subject_clause(i as nat, marker));
            }
            assert(subject_clauses((i + 1) as nat, marker) =~= if i == 0 {
                subject_clause(0, marker)
            } else {
                subject_clauses(i as nat, marker) + " OR "@ + subject_clause(i as nat, marker)
            });
        }
        i = i + 1;
    }
    push_str(&mut out, ")");
    proof {
        assert(out@ =~= grants_for_subjects_sql(n as nat, marker));
    }
    Some(string_of(&out))
}

} // verus!
