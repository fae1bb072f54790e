use rubix_server::store::timestamps::{timestamp_text, timestamp_value, Timestamp};
use rubix_server::store::boards::next_board_version;
use rubix_server::store::changes::{
    clear_redo_step, newest_undoable_group, ChangeFilter, ClearRedo, ClearRedoAction, GroupRow,
    ClearRedoEvent, UndoCursor,
};
use rubix_server::store::entity_tags::{group_tag_rows, key_less, EntityTags};
use rubix_server::store::error::{classify_db_failure, found, require_affected, StoreError};
use rubix_server::store::grants::{grants_for_subjects_query, Permission, SubjectKind};
use rubix_server::store::ids::{id_text, id_value};
use rubix_server::store::keyexpr::{point_keyexpr, site_prefix, split_point_prefix, split_site_prefix};
use rubix_server::store::nav_nodes::{check_not_own_parent, require_in_org};
use rubix_server::store::rules::{references, referencing_rules, resolve_rule, RuleRecord};

#[test]
fn permission_ordering_satisfies_lower_actions() {
    assert!(Permission::Admin.satisfies(Permission::Write));
    assert!(Permission::Write.satisfies(Permission::Read));
    assert!(Permission::Read.satisfies(Permission::Read));
    assert!(!Permission::Read.satisfies(Permission::Write));
    assert!(!Permission::Write.satisfies(Permission::Admin));
}

#[test]
fn grant_tokens_round_trip() {
    for p in [Permission::Read, Permission::Write, Permission::Admin] {
        assert_eq!(Permission::parse(p.as_str()), Some(p));
    }
    for k in [SubjectKind::User, SubjectKind::Team] {
        assert_eq!(SubjectKind::parse(k.as_str()), Some(k));
    }
    assert_eq!(Permission::parse("owner"), None);
    assert_eq!(SubjectKind::parse("group"), None);
    assert_eq!(Permission::Admin.as_str(), "admin");
    assert_eq!(SubjectKind::Team.as_str(), "team");
}

#[test]
fn subject_query_binds_two_params_per_subject() {
    assert_eq!(grants_for_subjects_query(0, '?'), None);
    assert_eq!(
        grants_for_subjects_query(2, '?').unwrap(),
        "SELECT id, org, subject_kind, subject_id, resource_kind, resource_ref, permission, \
         created_at FROM grants WHERE org = ?1 AND ((subject_kind = ?2 AND subject_id = ?3) \
         OR (subject_kind = ?4 AND subject_id = ?5))"
    );
    assert!(grants_for_subjects_query(1, '$')
        .unwrap()
        .ends_with("org = $1 AND ((subject_kind = $2 AND subject_id = $3))"));
    assert!(grants_for_subjects_query(6, '?').unwrap().contains("subject_id = ?13)"));
}

#[test]
fn detects_a_direct_composition_call() {
    assert!(references(
        r#"let x = rule("temp-high", df, #{});"#,
        "temp-high"
    ));
    assert!(references(r#"rule('temp-high', df, #{})"#, "temp-high"));
    assert!(references(r#"rule( "temp-high", df)"#, "temp-high"));
}

#[test]
fn any_whitespace_may_follow_the_parenthesis() {
    assert!(references(r#"rule(  "temp-high", df)"#, "temp-high"));
    assert!(references("rule(\t'temp-high', df)", "temp-high"));
    assert!(references("let v = rule(\n    \"temp-high\",\n    df)", "temp-high"));
    assert!(!references(r#"rule( x "temp-high", df)"#, "temp-high"));
    assert!(!references(r#"rule("temp-high-2", df)"#, "temp-high"));
}

#[test]
fn ignores_a_different_name() {
    assert!(!references(r#"rule("co2-stale", df)"#, "temp-high"));
    assert!(!references("finding(\"fault\", \"x\")", "temp-high"));
}

fn rule(name: &str, script: &str) -> RuleRecord {
    RuleRecord {
        id: 1,
        org: "nube".into(),
        site_id: None,
        name: name.into(),
        script: script.into(),
        params: "{}".into(),
        created_at: Timestamp { secs: 1_767_225_600, nanos: 0 },
    }
}

#[test]
fn referencing_rules_lists_composers_but_not_the_rule_itself() {
    let rules = vec![
        rule("temp-high", r#"rule("temp-high", df)"#),
        rule("ahu-alarm", r#"let t = rule("temp-high", df, #{});"#),
        rule("co2", r#"rule("co2-stale", df)"#),
        rule("zone", "rule( 'temp-high', df)"),
    ];
    let got: Vec<String> = referencing_rules(rules, "temp-high")
        .into_iter()
        .map(|r| r.name)
        .collect();
    assert_eq!(got, vec!["ahu-alarm".to_string(), "zone".to_string()]);
}

#[test]
fn point_prefix_splits_with_nested_equip_paths() {
    assert_eq!(
        split_point_prefix("nube/hq/ahu-3/vav-1/temp"),
        Some(("nube".into(), "hq".into(), "ahu-3/vav-1".into(), "temp".into()))
    );
    assert_eq!(
        split_point_prefix("nube/hq/ahu-3/temp"),
        Some(("nube".into(), "hq".into(), "ahu-3".into(), "temp".into()))
    );
    assert_eq!(split_point_prefix("nube/hq/temp"), None);
    assert_eq!(split_point_prefix(""), None);
}

#[test]
fn point_keyexpr_round_trips_through_split() {
    let k = point_keyexpr("acme", "hq-tower", "ahu-3/fan", "supply-fan-cmd");
    assert_eq!(k, "acme/hq-tower/ahu-3/fan/supply-fan-cmd");
    let (o, s, e, p) = split_point_prefix(&k).unwrap();
    assert_eq!(point_keyexpr(&o, &s, &e, &p), k);
}

#[test]
fn site_prefix_has_exactly_two_segments() {
    assert_eq!(site_prefix("acme", "hq-tower"), "acme/hq-tower");
    assert_eq!(
        split_site_prefix("acme/hq-tower"),
        Some(("acme".into(), "hq-tower".into()))
    );
    assert_eq!(split_site_prefix("acme"), None);
    assert_eq!(split_site_prefix("acme/hq/x"), None);
}

fn by(group_id: u128, actor: &str) -> GroupRow {
    GroupRow { group_id, actor_subject: actor.into() }
}

#[test]
fn newest_undoable_group_skips_already_undone_and_is_per_actor() {
    let (g1, g2, g3) = (11u128, 22u128, 33u128);
    // Newest first: another actor's group is the most recent row of the org.
    let rows = vec![by(g3, "other"), by(g2, "sub-1"), by(g1, "sub-1")];
    assert_eq!(newest_undoable_group(&rows, "sub-1", &vec![]), Some(g2));
    assert_eq!(newest_undoable_group(&rows, "sub-1", &vec![g2]), Some(g1));
    assert_eq!(newest_undoable_group(&rows, "sub-1", &vec![g2, g1]), None);
    assert_eq!(newest_undoable_group(&rows, "other", &vec![]), Some(g3));
    assert_eq!(newest_undoable_group(&rows, "nobody", &vec![]), None);
}

#[test]
fn a_group_with_several_rows_is_skipped_once_undone() {
    let rows = vec![by(30, "a"), by(20, "a"), by(30, "a"), by(10, "a")];
    assert_eq!(newest_undoable_group(&rows, "a", &vec![30]), Some(20));
    assert_eq!(newest_undoable_group(&rows, "a", &vec![30, 20]), Some(10));
    assert_eq!(newest_undoable_group(&rows, "a", &vec![30, 20, 10]), None);
}

#[test]
fn change_filter_limits() {
    assert_eq!(ChangeFilter::all().effective_limit(), ChangeFilter::DEFAULT_LIMIT);
    let mut f = ChangeFilter::all();
    f.limit = 5;
    assert_eq!(f.effective_limit(), 5);
    f.limit = -3;
    assert_eq!(f.effective_limit(), 200);
    let r = ChangeFilter::for_resource("dashboard".into(), 9);
    assert_eq!(r.resource_id, Some(9));
    assert_eq!(r.kind.as_deref(), Some("dashboard"));
    assert_eq!(r.effective_limit(), 200);
}

fn cursor(stack: Vec<u128>, epoch: i64) -> ClearRedoEvent {
    ClearRedoEvent::Cursor(UndoCursor { redo_stack: stack, epoch })
}

#[test]
fn clearing_an_empty_redo_stack_stops_after_one_read() {
    let (s, a) = clear_redo_step(ClearRedo::Begin, &ClearRedoEvent::Started);
    assert_eq!(a, ClearRedoAction::ReadCursor);
    let (s, a) = clear_redo_step(s, &cursor(vec![], 0));
    assert_eq!((s, a), (ClearRedo::Finished, ClearRedoAction::Stop));
}

#[test]
fn clearing_retries_once_on_a_lost_race() {
    let (s, _) = clear_redo_step(ClearRedo::Begin, &ClearRedoEvent::Started);
    let (s, a) = clear_redo_step(s, &cursor(vec![4], 3));
    assert_eq!(a, ClearRedoAction::ReadCursor);
    let (s, a) = clear_redo_step(s, &cursor(vec![4], 3));
    assert_eq!(a, ClearRedoAction::ClearFrom { epoch: 3 });
    let (s, a) = clear_redo_step(s, &ClearRedoEvent::Swapped(false));
    assert_eq!(a, ClearRedoAction::ReadCursor);
    let (s, a) = clear_redo_step(s, &cursor(vec![4, 5], 4));
    assert_eq!(a, ClearRedoAction::ClearFrom { epoch: 4 });
    let (s, a) = clear_redo_step(s, &ClearRedoEvent::Swapped(false));
    assert_eq!((s, a), (ClearRedo::Finished, ClearRedoAction::Stop));
}

#[test]
fn clearing_stops_once_the_swap_applies() {
    let (s, _) = clear_redo_step(ClearRedo::Begin, &ClearRedoEvent::Started);
    let (s, _) = clear_redo_step(s, &cursor(vec![1], 0));
    let (s, _) = clear_redo_step(s, &cursor(vec![1], 0));
    let (s, a) = clear_redo_step(s, &ClearRedoEvent::Swapped(true));
    assert_eq!((s, a), (ClearRedo::Finished, ClearRedoAction::Stop));
}

#[test]
fn tag_rows_group_per_entity() {
    let rows = vec![
        (1u128, "building".to_string(), Some("hq".to_string())),
        (1, "floor".to_string(), None),
        (2, "building".to_string(), Some("annex".to_string())),
        (3, "a".to_string(), Some("x".to_string())),
        (3, "a".to_string(), Some("y".to_string())),
    ];
    let got = group_tag_rows(&rows);
    assert_eq!(got.len(), 3);
    assert_eq!(got[0].0, 1);
    assert_eq!(
        *got[0].1.entries(),
        vec![("building".to_string(), Some("hq".to_string())), ("floor".to_string(), None)]
    );
    assert_eq!(*got[1].1.entries(), vec![("building".to_string(), Some("annex".to_string()))]);
    assert_eq!(*got[2].1.entries(), vec![("a".to_string(), Some("y".to_string()))]);
    let ids: Vec<u128> = got.iter().map(|g| g.0).collect();
    assert_eq!(ids, vec![1, 2, 3]);
    assert!(group_tag_rows(&vec![]).is_empty());
}

#[test]
fn row_checks_map_to_store_errors() {
    assert!(matches!(require_affected(0, "grant"), Err(StoreError::NotFound("grant"))));
    assert!(require_affected(1, "grant").is_ok());
    assert!(matches!(found::<u8>(None, "rule"), Err(StoreError::NotFound("rule"))));
    assert_eq!(found(Some(4u8), "rule").unwrap(), 4);
    match classify_db_failure(true, None, "x".into()) {
        StoreError::Conflict(m) => assert_eq!(m, "constraint violation"),
        other => panic!("{other:?}"),
    }
    match classify_db_failure(true, Some("UNIQUE constraint failed".into()), "x".into()) {
        StoreError::Conflict(m) => assert_eq!(m, "UNIQUE constraint failed"),
        other => panic!("{other:?}"),
    }
    match classify_db_failure(false, Some("m".into()), "disk I/O error".into()) {
        StoreError::Db(m) => assert_eq!(m, "disk I/O error"),
        other => panic!("{other:?}"),
    }
    assert!(matches!(
        StoreError::Invalid("bad".into()),
        StoreError::Invalid(ref m) if m == "bad"
    ));
}

#[test]
fn nav_guards() {
    match check_not_own_parent(5, Some(5)) {
        Err(StoreError::Conflict(m)) => assert_eq!(m, "nav node cannot parent itself"),
        other => panic!("{other:?}"),
    }
    assert!(check_not_own_parent(5, Some(6)).is_ok());
    assert!(check_not_own_parent(5, None).is_ok());
    assert!(require_in_org(Some("kfc"), "kfc").is_ok());
    assert!(matches!(require_in_org(Some("acme"), "kfc"), Err(StoreError::NotFound("nav node"))));
    assert!(matches!(require_in_org(None, "kfc"), Err(StoreError::NotFound("nav node"))));
}

#[test]
fn board_versions_count_up_from_one() {
    assert_eq!(next_board_version(None), 1);
    assert_eq!(next_board_version(Some(1)), 2);
    assert_eq!(next_board_version(Some(41)), 42);
}

#[test]
fn site_rule_shadows_org_rule_and_missing_fails_closed() {
    let site = rule("limit", "site body");
    let org = rule("limit", "org body");
    let got = resolve_rule(Some(site), Some(org.clone())).unwrap();
    assert_eq!(got.script, "site body");
    let got = resolve_rule(None, Some(org)).unwrap();
    assert_eq!(got.script, "org body");
    match resolve_rule(None, None) {
        Err(StoreError::NotFound(what)) => assert_eq!(what, "rule"),
        other => panic!("expected NotFound, got {:?}", other.map(|r| r.name)),
    }
}

#[test]
fn ids_render_hyphenated_and_parse_back() {
    let raw = "67e55044-10b1-426f-9247-bb680e5fe0c8";
    let v = id_value(raw).unwrap();
    assert_eq!(v, 0x67e5504410b1426f9247bb680e5fe0c8u128);
    assert_eq!(id_text(v), raw);
    assert_eq!(id_text(1), "00000000-0000-0000-0000-000000000001");
    for x in [0u128, 1, u128::MAX, 0xdead_beef] {
        assert_eq!(id_value(&id_text(x)).unwrap(), x);
    }
}

#[test]
fn a_stored_id_that_is_not_a_uuid_is_a_db_error() {
    match id_value("not-a-uuid") {
        Err(StoreError::Db(m)) => assert_eq!(m, "bad uuid `not-a-uuid`"),
        other => panic!("expected a Db error, got {:?}", other),
    }
}

#[test]
fn permissions_order_and_parse_like_their_tokens() {
    assert!(Permission::Admin > Permission::Write);
    assert!(Permission::Write > Permission::Read);
    assert_eq!("write".parse::<Permission>(), Ok(Permission::Write));
    assert_eq!("owner".parse::<Permission>(), Err(()));
}

#[test]
fn stored_instants_parse_to_utc_and_render_back() {
    let t = timestamp_value("2026-01-01T00:00:00.000000Z").unwrap();
    assert_eq!(t, Timestamp { secs: 1_767_225_600, nanos: 0 });
    assert_eq!(timestamp_text(t).unwrap(), "2026-01-01T00:00:00.000000Z");
    let shifted = timestamp_value("2026-01-01T02:00:00.5+02:00").unwrap();
    assert_eq!(shifted, Timestamp { secs: 1_767_225_600, nanos: 500_000_000 });
    assert_eq!(timestamp_text(shifted).unwrap(), "2026-01-01T00:00:00.500000Z");
}

#[test]
fn malformed_or_unrepresentable_instants_are_refused() {
    match timestamp_value("yesterday") {
        Err(StoreError::Db(m)) => assert_eq!(m, "bad timestamp `yesterday`"),
        other => panic!("expected a Db error, got {:?}", other),
    }
    match timestamp_text(Timestamp { secs: i64::MAX, nanos: 0 }) {
        Err(StoreError::Invalid(m)) => assert_eq!(m, "timestamp out of range"),
        other => panic!("expected an Invalid error, got {:?}", other),
    }
}

#[test]
fn a_tag_set_keeps_keys_sorted_and_unique() {
    let mut tags = EntityTags::new();
    tags.insert("zone".into(), Some("4".into()));
    tags.insert("building".into(), Some("hq".into()));
    tags.insert("floor".into(), None);
    tags.insert("building".into(), Some("annex".into()));
    assert_eq!(
        *tags.entries(),
        vec![
            ("building".to_string(), Some("annex".to_string())),
            ("floor".to_string(), None),
            ("zone".to_string(), Some("4".to_string())),
        ]
    );
    assert!(key_less("ab", "b"));
    assert!(key_less("a", "ab"));
    assert!(!key_less("b", "b"));
    assert!(key_less("Z", "a"));
}
