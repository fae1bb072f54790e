use rubix_server::profile::{
    default_kind, resolve, resolve_in, Features, HistoryTier, Profile, ProfileError, ProfileKind,
    StoreKind,
};

#[test]
fn edge_defaults_preserve_todays_behavior() {
    let p = Profile::defaults(ProfileKind::Edge);
    assert_eq!(p.store, StoreKind::Sqlite);
    assert_eq!(p.history, HistoryTier::LocalParquet);
    assert!(p.supervise_drivers);
    assert!(!p.auth_required);
}

#[test]
fn cloud_defaults_select_cloud_backends() {
    let p = Profile::defaults(ProfileKind::Cloud);
    assert_eq!(p.store, StoreKind::Postgres);
    assert_eq!(p.history, HistoryTier::ObjectStore);
    assert!(!p.supervise_drivers);
    assert!(p.auth_required);
}

#[test]
fn unset_resolves_to_the_compiled_default() {
    let p = resolve(None).unwrap();
    assert_eq!(p.kind, default_kind(Features::default_build()));
}

#[test]
fn blank_is_treated_as_unset() {
    assert_eq!(
        resolve(Some("   ")).unwrap().kind,
        default_kind(Features::default_build())
    );
}

#[test]
fn unknown_token_is_rejected() {
    assert!(matches!(
        resolve(Some("gateway")),
        Err(ProfileError::Unknown(_))
    ));
}

#[test]
fn edge_resolves_when_compiled() {
    let p = resolve_in(Some("edge"), Features { edge: true, cloud: false }).unwrap();
    assert_eq!(p.kind, ProfileKind::Edge);
}

#[test]
fn cloud_resolves_when_compiled() {
    let p = resolve_in(Some("cloud"), Features { edge: true, cloud: true }).unwrap();
    assert_eq!(p.kind, ProfileKind::Cloud);
}

#[test]
fn cloud_rejected_when_not_compiled() {
    assert!(matches!(
        resolve(Some("cloud")),
        Err(ProfileError::NotCompiled(ProfileKind::Cloud))
    ));
}

#[test]
fn edge_rejected_when_not_compiled() {
    assert!(matches!(
        resolve_in(Some("edge"), Features { edge: false, cloud: true }),
        Err(ProfileError::NotCompiled(ProfileKind::Edge))
    ));
}

#[test]
fn surrounding_whitespace_is_ignored() {
    let p = resolve(Some("  edge\t\n")).unwrap();
    assert_eq!(p, Profile::defaults(ProfileKind::Edge));
}

#[test]
fn unknown_token_is_reported_trimmed() {
    match resolve(Some("  gateway ")) {
        Err(ProfileError::Unknown(u)) => assert_eq!(u.token, "gateway"),
        other => panic!("expected an unknown-profile error, got {other:?}"),
    }
}

#[test]
fn default_is_cloud_when_edge_is_absent() {
    let f = Features { edge: false, cloud: true };
    assert_eq!(default_kind(f), ProfileKind::Cloud);
    assert_eq!(resolve_in(None, f).unwrap().kind, ProfileKind::Cloud);
    assert_eq!(resolve_in(Some(" "), f).unwrap().kind, ProfileKind::Cloud);
}

#[test]
fn tokens_round_trip() {
    for k in [ProfileKind::Edge, ProfileKind::Cloud] {
        assert_eq!(ProfileKind::parse(k.as_str()).unwrap(), k);
    }
    assert!(ProfileKind::parse("Edge").is_err());
}
