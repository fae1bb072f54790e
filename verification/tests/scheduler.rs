use rubix_server::store::timestamps::Timestamp;
use rubix_server::scheduler::loops::{
    board_key, board_state_key, launch_plan, plan_registration, subscription_step, BoardKey, LoopTable,
    Registration, SubscriptionAction, SubscriptionEvent,
};
use rubix_server::scheduler::outputs::{BoardOutputs, NodeOutput};
use rubix_server::scheduler::record::BoardRecord;
use rubix_server::scheduler::trigger::Trigger;

#[test]
fn interval_zero_rejected() {
    assert!(Trigger::Interval { seconds: 0 }.validate().is_err());
    assert!(Trigger::Interval { seconds: 1 }.validate().is_ok());
}

#[test]
fn empty_subscription_rejected() {
    assert!(Trigger::Subscription { key: "  ".into() }
        .validate()
        .is_err());
    assert!(Trigger::Subscription {
        key: "nube/hq/*/cur".into()
    }
    .validate()
    .is_ok());
}

#[test]
fn validation_messages_name_the_problem() {
    assert_eq!(
        Trigger::Interval { seconds: 0 }.validate().unwrap_err(),
        "interval trigger requires seconds >= 1"
    );
    assert_eq!(
        Trigger::Subscription { key: "\t".into() }.validate().unwrap_err(),
        "subscription trigger requires a non-empty key"
    );
    assert!(Trigger::Manual.validate().is_ok());
}

fn out(node: &str, port: &str, value: &str) -> NodeOutput {
    NodeOutput {
        node: node.into(),
        port: port.into(),
        value: value.into(),
        quality: "ok".into(),
    }
}

#[test]
fn record_then_latest_roundtrips() {
    let mut cache = BoardOutputs::new();
    cache.record(
        "b",
        &vec![out("trigger", "output", "true"), out("trigger", "count", "3")],
        "2026-06-13T00:00:00Z".into(),
    );
    let mut got = cache.latest("b");
    got.sort_by(|a, b| a.port.cmp(&b.port));
    assert_eq!(got.len(), 2);
    assert_eq!(got[0].port, "count");
    assert_eq!(got[0].value, "3");
}

#[test]
fn a_new_run_replaces_the_previous_outputs() {
    let mut cache = BoardOutputs::new();
    cache.record("b", &vec![out("n", "a", "1")], "t1".into());
    cache.record("b", &vec![out("n", "b", "2")], "t2".into());
    let got = cache.latest("b");
    assert_eq!(got.len(), 1, "stale port from the first run is gone");
    assert_eq!(got[0].port, "b");
}

#[test]
fn unknown_board_is_empty_not_an_error() {
    assert!(BoardOutputs::new().latest("nope").is_empty());
}

#[test]
fn subscribe_seeds_then_record_pushes_the_new_snapshot() {
    let mut cache = BoardOutputs::new();
    let seed = cache.latest("b");
    assert!(seed.is_empty(), "no run yet → empty seed");

    let pushed = cache.record("b", &vec![out("n", "a", "7")], "t1".into());
    assert_eq!(pushed.len(), 1);
    assert_eq!(pushed[0].value, "7");
}

#[test]
fn clear_pushes_an_empty_snapshot_so_subscribers_blank() {
    let mut cache = BoardOutputs::new();
    cache.record("b", &vec![out("n", "a", "1")], "t1".into());
    let pushed = cache.clear("b");
    assert!(pushed.is_empty(), "cleared board blanks live subscribers");
    assert!(cache.latest("b").is_empty());
}

#[test]
fn last_packet_per_port_wins_and_keeps_first_seen_order() {
    let mut cache = BoardOutputs::new();
    let snap = cache.record(
        "b",
        &vec![out("n", "a", "1"), out("m", "x", "5"), out("n", "a", "2")],
        "t9".into(),
    );
    assert_eq!(snap.len(), 2);
    assert_eq!((snap[0].node.as_str(), snap[0].value.as_str()), ("n", "2"));
    assert_eq!((snap[1].node.as_str(), snap[1].value.as_str()), ("m", "5"));
    assert_eq!(snap[0].at, "t9");
}

#[test]
fn boards_are_cached_independently() {
    let mut cache = BoardOutputs::new();
    cache.record("a", &vec![out("n", "p", "1")], "t1".into());
    cache.record("b", &vec![out("n", "p", "2")], "t2".into());
    cache.clear("b");
    assert_eq!(cache.latest("a")[0].value, "1");
    assert!(cache.latest("b").is_empty());
}

fn board(trigger: Trigger, enabled: bool, site: Option<u128>) -> BoardRecord {
    BoardRecord {
        id: 1,
        org: "nube".into(),
        site_id: site,
        slug: "loop".into(),
        version: 1,
        display_name: "Loop".into(),
        enabled,
        trigger,
        graph: "{}".into(),
        created_at: Timestamp { secs: 1_767_225_600, nanos: 0 },
    }
}

#[test]
fn manual_or_disabled_boards_are_not_scheduled() {
    assert!(!board(Trigger::Manual, true, None).is_scheduled());
    assert!(!board(Trigger::Interval { seconds: 5 }, false, None).is_scheduled());
    assert!(board(Trigger::Interval { seconds: 5 }, true, None).is_scheduled());
}

#[test]
fn registration_follows_the_trigger() {
    let b = board(Trigger::Interval { seconds: 30 }, true, None);
    assert!(matches!(
        plan_registration(&b, false),
        Registration::StartInterval { seconds: 30 }
    ));
    let s = board(Trigger::Subscription { key: "nube/hq/*/cur".into() }, true, None);
    match plan_registration(&s, true) {
        Registration::StartSubscription { key } => assert_eq!(key, "nube/hq/*/cur"),
        other => panic!("unexpected plan {other:?}"),
    }
    assert!(matches!(plan_registration(&s, false), Registration::SkipNoBus));
    let m = board(Trigger::Manual, true, None);
    assert!(matches!(plan_registration(&m, true), Registration::Stop));
    let d = board(Trigger::Interval { seconds: 30 }, false, None);
    assert!(matches!(plan_registration(&d, true), Registration::Stop));
}

#[test]
fn state_key_joins_scope_with_unit_separators() {
    assert_eq!(board_state_key("nube", None, "loop"), "nube\u{1f}\u{1f}loop");
    assert_eq!(
        board_state_key("nube", Some(0x0123_4567_89ab_cdef_0011_2233_4455_6677), "loop"),
        "nube\u{1f}01234567-89ab-cdef-0011-223344556677\u{1f}loop"
    );
}

#[test]
fn republishing_replaces_the_loop_for_a_board_identity() {
    let mut table: LoopTable<&str> = LoopTable::new();
    let v1 = board(Trigger::Interval { seconds: 5 }, true, Some(7));
    let mut v2 = board(Trigger::Interval { seconds: 9 }, true, Some(7));
    v2.id = 2;
    v2.version = 2;
    assert_eq!(table.insert(board_key(&v1), "first"), None);
    assert_eq!(table.insert(board_key(&v2), "second"), Some("first"));
    assert_eq!(table.active(), 1);
    let other = BoardKey { org: "nube".into(), site_id: None, slug: "loop".into() };
    assert_eq!(table.insert(other.clone(), "org-level"), None);
    assert_eq!(table.active(), 2);
    assert_eq!(table.remove(&board_key(&v1)), Some("second"));
    assert_eq!(table.remove(&board_key(&v1)), None);
    let mut rest = table.drain();
    rest.sort();
    assert_eq!(rest, vec!["org-level"]);
    assert_eq!(table.active(), 0);
}

#[test]
fn subscription_loop_reacts_to_events() {
    assert_eq!(subscription_step(SubscriptionEvent::WatchFailed), SubscriptionAction::Stop);
    assert_eq!(subscription_step(SubscriptionEvent::Sample), SubscriptionAction::LoadBoard);
    assert_eq!(
        subscription_step(SubscriptionEvent::BoardLoaded { scheduled: true }),
        SubscriptionAction::Evaluate
    );
    assert_eq!(
        subscription_step(SubscriptionEvent::BoardLoaded { scheduled: false }),
        SubscriptionAction::Wait
    );
    assert_eq!(subscription_step(SubscriptionEvent::LookupFailed), SubscriptionAction::Wait);
    assert_eq!(subscription_step(SubscriptionEvent::StreamClosed), SubscriptionAction::Stop);
    assert_eq!(
        subscription_step(SubscriptionEvent::ShutdownChanged { stop: false }),
        SubscriptionAction::Wait
    );
    assert_eq!(
        subscription_step(SubscriptionEvent::ShutdownChanged { stop: true }),
        SubscriptionAction::Stop
    );
}

fn slugged(slug: &str, trigger: Trigger, enabled: bool) -> BoardRecord {
    let mut b = board(trigger, enabled, None);
    b.slug = slug.into();
    b
}

#[test]
fn launch_keeps_one_loop_per_board_from_its_last_scheduled_version() {
    let boards = vec![
        slugged("a", Trigger::Interval { seconds: 5 }, true),
        slugged("a", Trigger::Interval { seconds: 10 }, true),
        slugged("b", Trigger::Manual, true),
        slugged("c", Trigger::Subscription { key: "nube/hq/*/cur".into() }, true),
        slugged("d", Trigger::Interval { seconds: 5 }, false),
        slugged("e", Trigger::Interval { seconds: 60 }, true),
        slugged("e", Trigger::Interval { seconds: 1 }, false),
    ];
    let summary = |has_bus: bool| {
        let mut v: Vec<(String, String)> = launch_plan(&boards, has_bus)
            .into_iter()
            .map(|(k, p)| (k.slug, format!("{:?}", p)))
            .collect();
        v.sort();
        v
    };
    assert_eq!(
        summary(false),
        vec![
            ("a".to_string(), "StartInterval { seconds: 10 }".to_string()),
            ("e".to_string(), "StartInterval { seconds: 60 }".to_string()),
        ]
    );
    assert_eq!(summary(true).len(), 3);
    assert!(summary(true).contains(&("c".to_string(), "StartSubscription { key: \"nube/hq/*/cur\" }".to_string())));
}
