//! Edge/cloud deployment profiles: one executable, the compiled-in profiles
//! decide what is available, `RUBIX_PROFILE` selects among them at boot, and
//! [`Profile`] carries the per-profile defaults threaded into the server state.

use vstd::prelude::*;

use crate::text::{chars_of, spec_trim, str_eq, string_of, trim_chars};

verus! {

broadcast use vstd::string::group_string_axioms;

/// Which deployment profile a node runs as.
#[derive(Debug, Clone, Copy, PartialEq, Eq, Structural)]
pub enum ProfileKind {
    /// On-box station: SQLite store, local history, driver supervision.
    Edge,
    /// Cloud node: Postgres store, object-store history, authenticated API.
    Cloud,
}

/// A `RUBIX_PROFILE` token that names no known profile.
#[derive(Debug, Clone, PartialEq, Eq)]
pub struct UnknownProfile {
    /// The token as given (surrounding whitespace trimmed).
    pub token: String,
}

impl ProfileKind {
    /// The profile's token, as `RUBIX_PROFILE` spells it.
    pub open spec fn token(self) -> Seq<char> {
        match self {
            ProfileKind::Edge => seq!['e', 'd', 'g', 'e'],
            ProfileKind::Cloud => seq!['c', 'l', 'o', 'u', 'd'],
        }
    }

    /// The profile whose token is `s`, if any.
    pub open spec fn spec_parse(s: Seq<char>) -> Option<ProfileKind> {
        if s == ProfileKind::Edge.token() {
            Some(ProfileKind::Edge)
        } else if s == ProfileKind::Cloud.token() {
            Some(ProfileKind::Cloud)
        } else {
            None
        }
    }

    /// The profile's token.
    pub fn as_str(self) -> (r: &'static str)
        ensures
            r@ == self.token(),
    {
        match self {
            ProfileKind::Edge => {
                proof {
                    reveal_strlit("edge");
                    assert("edge"@ =~= ProfileKind::Edge.token());
                }
                "edge"
            },
            ProfileKind::Cloud => {
                proof {
                    reveal_strlit("cloud");
                    assert("cloud"@ =~= ProfileKind::Cloud.token());
                }
                "cloud"
            },
        }
    }

    /// Parse a profile token (`edge` or `cloud`).
    pub fn parse(token: &str) -> (r: Result<ProfileKind, UnknownProfile>)
        ensures
            r matches Ok(k) ==> ProfileKind::spec_parse(token@) == Some(k),
            r matches Err(e) ==> ProfileKind::spec_parse(token@) is None && e.token@ == token@,
            r is Ok <==> ProfileKind::spec_parse(token@) is Some,
    {
        proof {
            reveal_strlit("edge");
            reveal_strlit("cloud");
            assert("edge"@ =~= ProfileKind::Edge.token());
            assert("cloud"@ =~= ProfileKind::Cloud.token());
        }
        if str_eq(token, "edge") {
            Ok(ProfileKind::Edge)
        } else if str_eq(token, "cloud") {
            Ok(ProfileKind::Cloud)
        } else {
            let v = chars_of(token);
            Err(UnknownProfile { token: string_of(&v) })
        }
    }
}


/// Which relational store a profile expects.
#[derive(Debug, Clone, Copy, PartialEq, Eq, Structural)]
pub enum StoreKind {
    /// On-box SQLite.
    Sqlite,
    /// Cloud Postgres.
    Postgres,
}

/// Which history tier a profile defaults to.
#[derive(Debug, Clone, Copy, PartialEq, Eq, Structural)]
pub enum HistoryTier {
    /// SQLite hot tier with an optional local Parquet cold tier.
    LocalParquet,
    /// Object-store cold tier (cloud).
    ObjectStore,
}

/// The resolved profile config: per-profile defaults, read once at boot.
#[derive(Debug, Clone, Copy, PartialEq, Eq, Structural)]
pub struct Profile {
    /// Which profile this node runs as.
    pub kind: ProfileKind,
    /// Relational store backend the profile expects.
    pub store: StoreKind,
    /// History tier the profile defaults to.
    pub history: HistoryTier,
    /// Whether the driver supervisor launches on this profile.
    pub supervise_drivers: bool,
    /// Whether the profile requires authenticated requests.
    pub auth_required: bool,
}

/// The defaults of a profile kind, as a value.
pub open spec fn spec_defaults(kind: ProfileKind) -> Profile {
    match kind {
        ProfileKind::Edge => Profile {
            kind,
            store: StoreKind::Sqlite,
            history: HistoryTier::LocalParquet,
            supervise_drivers: true,
            auth_required: false,
        },
        ProfileKind::Cloud => Profile {
            kind,
            store: StoreKind::Postgres,
            history: HistoryTier::ObjectStore,
            supervise_drivers: false,
            auth_required: true,
        },
    }
}

impl Profile {
    /// The defaults for a given profile kind.
    pub fn defaults(kind: ProfileKind) -> (p: Profile)
        ensures
            p == spec_defaults(kind),
    {
        match kind {
            ProfileKind::Edge => Profile {
                kind,
                store: StoreKind::Sqlite,
                history: HistoryTier::LocalParquet,
                supervise_drivers: true,
                auth_required: false,
            },
            ProfileKind::Cloud => Profile {
                kind,
                store: StoreKind::Postgres,
                history: HistoryTier::ObjectStore,
                supervise_drivers: false,
                auth_required: true,
            },
        }
    }
}

/// Which profiles a build carries: the capability boundary the selection
/// works within.
#[derive(Debug, Clone, Copy, PartialEq, Eq, Structural)]
pub struct Features {
    /// The `edge` profile is compiled in.
    pub edge: bool,
    /// The `cloud` profile is compiled in.
    pub cloud: bool,
}

impl Features {
    /// The default build: the edge profile only.
    pub fn default_build() -> (f: Features)
        ensures
            f.edge && !f.cloud,
    {
        Features { edge: true, cloud: false }
    }
}

/// A profile could not be selected at boot.
#[derive(Debug, Clone, PartialEq, Eq)]
pub enum ProfileError {
    /// `RUBIX_PROFILE` held a token that is not a known profile.
    Unknown(UnknownProfile),
    /// The requested profile is known but not compiled into this build.
    NotCompiled(ProfileKind),
}

/// Whether `kind` is compiled into a build with `features`.
pub open spec fn spec_compiled(kind: ProfileKind, features: Features) -> bool {
    match kind {
        ProfileKind::Edge => features.edge,
        ProfileKind::Cloud => features.cloud,
    }
}

/// The profile chosen when none is requested: `edge` when compiled, else `cloud`.
pub open spec fn spec_default_kind(features: Features) -> ProfileKind {
    if features.edge {
        ProfileKind::Edge
    } else {
        ProfileKind::Cloud
    }
}

/// The profile a raw `RUBIX_PROFILE` value asks for, `None` when the trimmed
/// value names no profile. Unset and blank both mean "the default".
pub open spec fn spec_requested(raw: Option<Seq<char>>, features: Features) -> Option<ProfileKind> {
    match raw {
        Some(s) => if spec_trim(s).len() > 0 {
            ProfileKind::spec_parse(spec_trim(s))
        } else {
            Some(spec_default_kind(features))
        },
        None => Some(spec_default_kind(features)),
    }
}

/// The raw value, if any, as characters.
pub open spec fn raw_view(raw: Option<&str>) -> Option<Seq<char>> {
    match raw {
        Some(s) => Some(s@),
        None => None,
    }
}

/// True when the given profile kind was compiled into the build.
pub fn compiled(kind: ProfileKind, features: Features) -> (r: bool)
    ensures
        r == spec_compiled(kind, features),
{
    match kind {
        ProfileKind::Edge => features.edge,
        ProfileKind::Cloud => features.cloud,
    }
}

/// The profile selected when `RUBIX_PROFILE` is unset.
pub fn default_kind(features: Features) -> (k: ProfileKind)
    ensures
        k == spec_default_kind(features),
{
    if features.edge {
        ProfileKind::Edge
    } else {
        ProfileKind::Cloud
    }
}

/// Resolve the profile from a raw `RUBIX_PROFILE` value (`None` = unset) within
/// what a build with `features` carries. Whitespace around the token is
/// ignored and a blank value counts as unset.
pub fn resolve_in(raw: Option<&str>, features: Features) -> (r: Result<Profile, ProfileError>)
    ensures
        r is Ok <==> (spec_requested(raw_view(raw), features) matches Some(k) && spec_compiled(
            k,
            features,
        )),
        r matches Ok(p) ==> Some(p.kind) == spec_requested(raw_view(raw), features) && p
            == spec_defaults(p.kind),
        r matches Err(ProfileError::Unknown(u)) ==> (spec_requested(raw_view(raw), features) is None
            && (raw_view(raw) matches Some(s) && u.token@ == spec_trim(s))),
        r matches Err(ProfileError::NotCompiled(k)) ==> spec_requested(raw_view(raw), features)
            == Some(k) && !spec_compiled(k, features),
{
    let kind = match raw {
        Some(s) => {
            let v = chars_of(s);
            let t = trim_chars(&v);
            if t.len() == 0 {
                default_kind(features)
            } else {
                let token = string_of(&t);
                match ProfileKind::parse(token.as_str()) {
                    Ok(k) => k,
                    Err(e) => {
                        return Err(ProfileError::Unknown(e));
                    },
                }
            }
        },
        None => default_kind(features),
    };
    if !compiled(kind, features) {
        return Err(ProfileError::NotCompiled(kind));
    }
    Ok(Profile::defaults(kind))
}

/// Resolve the profile from a raw `RUBIX_PROFILE` value for the default build.
pub fn resolve(raw: Option<&str>) -> (r: Result<Profile, ProfileError>)
    ensures
        ({
            let f = Features { edge: true, cloud: false };
            &&& r is Ok <==> (spec_requested(raw_view(raw), f) matches Some(k) && spec_compiled(k, f))
            &&& r matches Ok(p) ==> Some(p.kind) == spec_requested(raw_view(raw), f) && p
                == spec_defaults(p.kind)
            &&& r matches Err(ProfileError::Unknown(u)) ==> (spec_requested(raw_view(raw), f) is None
                && (raw_view(raw) matches Some(s) && u.token@ == spec_trim(s)))
            &&& r matches Err(ProfileError::NotCompiled(k)) ==> spec_requested(raw_view(raw), f)
                == Some(k) && !spec_compiled(k, f)
        }),
{
    resolve_in(raw, Features::default_build())
}


/// A blank `RUBIX_PROFILE` selects exactly what an unset one does.
pub proof fn law_blank_is_unset(raw: Seq<char>, features: Features)
    requires
        crate::text::spec_is_blank(raw),
    ensures
        spec_requested(Some(raw), features) == spec_requested(None, features),
{
    lemma_blank_trims_to_nothing(raw);
}

proof fn lemma_blank_trims_to_nothing(s: Seq<char>)
    requires
        crate::text::spec_is_blank(s),
    ensures
        spec_trim(s).len() == 0,
    decreases s.len(),
{
    if s.len() > 0 {
        let t = s.drop_first();
        assert forall|i: int| 0 <= i < t.len() implies crate::text::spec_is_whitespace(#[trigger] t[i]) by {
            assert(t[i] == s[i + 1]);
        }
        lemma_blank_trims_to_nothing(t);
        assert(crate::text::spec_is_whitespace(s[0]));
        assert(crate::text::spec_trim_start(s) == 1 + crate::text::spec_trim_start(t));
        assert(crate::text::spec_trim_start(t) >= crate::text::spec_trim_end(t)) by {
            lemma_trim_bounds(t);
        }
        lemma_trim_bounds(s);
        lemma_trim_end_blank(s);
    }
}

proof fn lemma_trim_bounds(s: Seq<char>)
    ensures
        0 <= crate::text::spec_trim_start(s) <= s.len(),
        0 <= crate::text::spec_trim_end(s) <= s.len(),
    decreases s.len(),
{
    if s.len() > 0 {
        lemma_trim_bounds(s.drop_first());
        lemma_trim_bounds(s.drop_last());
    }
}

proof fn lemma_trim_end_blank(s: Seq<char>)
    requires
        crate::text::spec_is_blank(s),
    ensures
        crate::text::spec_trim_end(s) == 0,
    decreases s.len(),
{
    if s.len() > 0 {
        let t = s.drop_last();
        assert forall|i: int| 0 <= i < t.len() implies crate::text::spec_is_whitespace(#[trigger] t[i]) by {
            assert(t[i] == s[i]);
        }
        assert(crate::text::spec_is_whitespace(s[s.len() - 1]));
        lemma_trim_end_blank(t);
    }
}

/// Surrounding whitespace never changes the selection: a raw value selects
/// exactly what its trimmed form does.
pub proof fn law_requested_ignores_surrounding_whitespace(raw: Seq<char>, features: Features)
    ensures
        spec_requested(Some(raw), features) == spec_requested(Some(spec_trim(raw)), features),
{
    crate::text::lemma_trim_idempotent(raw);
}

/// A profile's defaults are for that profile: the edge profile supervises
/// on-box drivers without requiring auth, the cloud profile the reverse.
pub proof fn law_defaults_keep_kind(kind: ProfileKind)
    ensures
        spec_defaults(kind).kind == kind,
        spec_defaults(kind).supervise_drivers == (kind == ProfileKind::Edge),
        spec_defaults(kind).auth_required == (kind == ProfileKind::Cloud),
{
}

/// The default profile is always compiled into a build that carries any.
pub proof fn law_default_is_compiled(features: Features)
    requires
        features.edge || features.cloud,
    ensures
        spec_compiled(spec_default_kind(features), features),
{
}

/// With `RUBIX_PROFILE` unset or blank, a build that carries the edge profile
/// runs as edge, whatever else it carries; only a build without edge falls
/// back to cloud.
pub proof fn law_unset_prefers_edge(raw: Option<Seq<char>>, features: Features)
    requires
        raw matches Some(s) ==> crate::text::spec_is_blank(s),
    ensures
        features.edge ==> spec_requested(raw, features) == Some(ProfileKind::Edge),
        !features.edge ==> spec_requested(raw, features) == Some(ProfileKind::Cloud),
        features.edge ==> spec_compiled(ProfileKind::Edge, features),
{
    if let Some(s) = raw {
        lemma_blank_trims_to_nothing(s);
    }
}

} // verus!
