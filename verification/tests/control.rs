use longhorn_agent::control::args::{ClickArgs, CommandArgs, PressArgs, SnapshotArgs, WaitForArgs, WaitPredicateArgs};
use longhorn_agent::control::carrier::{
    http_status_error, is_cancellation, reply_action, resolve_carrier_dir,
    resolve_discovery_dir, resolve_discovery_dir_with_state_override, select_instance,
    split_reply, CarrierError, EnvFacts, ReplyAction, TargetPlatform,
};
use longhorn_agent::control::client::{parse_args, usage};
use longhorn_agent::control::discovery::{
    discovery_file_name, parse_record_stem, validate_app_id, DiscoveryError, DiscoveryFile,
    DiscoveryInstance, DiscoveryRecord, DiscoveryScan, DISCOVERY_SCHEMA_VERSION, stale_paths,
};
use longhorn_agent::control::events::{advance_listen_cursor, kind_for_uri, known_uri, uri_for_kind};
use longhorn_agent::control::guard::{guard_verdict, is_loopback_origin, GuardVerdict};
use longhorn_agent::control::json::Json;
use longhorn_agent::control::tools::{KeyModifier, WaitPredicate};
use longhorn_agent::control::token::InstanceToken;

fn obj(members: Vec<(&str, Json)>) -> Json {
    Json::Object(members.into_iter().map(|(k, v)| (k.to_owned(), v)).collect())
}

#[test]
fn origin_policy() {
    for allowed in [
        "http://localhost:3000",
        "https://localhost",
        "http://app.localhost:8080",
        "http://127.0.0.1:49152",
        "http://[::1]:9000",
    ] {
        assert!(is_loopback_origin(allowed), "{allowed} must be allowed");
    }
    for rejected in [
        "https://evil.example",
        "null",
        "http://127.0.0.1.evil.example",
        "file://",
        "http://localhost.evil.example",
        "not a url",
    ] {
        assert!(!is_loopback_origin(rejected), "{rejected} must be rejected");
    }
}

#[test]
fn guard_checks_origin_before_the_token() {
    let token = InstanceToken::generate().unwrap();
    let bearer = format!("Bearer {}", token.as_str());
    assert_eq!(guard_verdict(&token, None, Some(Some(&bearer))), GuardVerdict::Admit);
    assert_eq!(
        guard_verdict(&token, Some(Some("https://evil.example")), Some(Some(&bearer))),
        GuardVerdict::Forbidden
    );
    assert_eq!(guard_verdict(&token, Some(None), None), GuardVerdict::Forbidden);
    assert_eq!(
        guard_verdict(&token, Some(Some("http://localhost:5173")), Some(Some("Bearer wrong-token"))),
        GuardVerdict::Unauthorized
    );
    assert_eq!(guard_verdict(&token, None, None), GuardVerdict::Unauthorized);
    assert_eq!(guard_verdict(&token, None, Some(Some(token.as_str()))), GuardVerdict::Unauthorized);
    assert_eq!(
        guard_verdict(&token, Some(Some("http://127.0.0.1:8080")), Some(Some(&bearer))),
        GuardVerdict::Admit
    );
}

#[test]
fn empty_batch_keeps_the_previous_cursor() {
    assert_eq!(advance_listen_cursor(0, &vec![]), 0);
    assert_eq!(advance_listen_cursor(3, &vec![]), 3);
}

#[test]
fn cursor_is_the_last_delivered_seq_not_next_seq() {
    let events = vec![
        obj(vec![("seq", Json::Number("1".to_owned())), ("kind", Json::String("navigation".to_owned()))]),
        obj(vec![("seq", Json::Number("2".to_owned())), ("kind", Json::String("navigation".to_owned()))]),
    ];
    assert_eq!(advance_listen_cursor(0, &events), 2);
}

#[test]
fn cursor_takes_the_largest_seq_and_ignores_events_without_one() {
    let events = vec![
        obj(vec![("seq", Json::Number("9".to_owned()))]),
        obj(vec![("kind", Json::String("console".to_owned()))]),
        obj(vec![("seq", Json::Number("4".to_owned()))]),
        obj(vec![("seq", Json::String("12".to_owned()))]),
    ];
    assert_eq!(advance_listen_cursor(20, &events), 9);
    assert_eq!(advance_listen_cursor(20, &vec![obj(vec![("seq", Json::Number("-1".to_owned()))])]), 20);
}

#[test]
fn event_resources_map_both_ways() {
    assert!(known_uri("longhorn://agent-control/console"));
    assert!(!known_uri("longhorn://agent-control/selection"));
    assert_eq!(kind_for_uri("longhorn://agent-control/error"), Some("error"));
    assert_eq!(uri_for_kind("navigation"), Some("longhorn://agent-control/navigation"));
    assert_eq!(uri_for_kind("page-error"), None);
    for kind in ["console", "error", "navigation"] {
        assert_eq!(kind_for_uri(uri_for_kind(kind).unwrap()), Some(kind));
    }
}

#[test]
fn omitted_webview_deserializes_to_todays_meaning() {
    let snapshot = SnapshotArgs { window: None, webview: None }.into_request().unwrap();
    assert!(snapshot.window.is_none() && snapshot.webview.is_none());
    let click = ClickArgs { window: None, webview: None, element: "e1".to_owned() };
    let request = click.into_request().unwrap();
    assert!(request.window.is_none());
    assert!(request.webview.is_none());
    assert_eq!(request.element.as_str(), "e1");
}

#[test]
fn webview_field_is_accepted_on_semantic_args() {
    let args = SnapshotArgs { window: None, webview: Some("preview".to_owned()) };
    let request = args.into_request().unwrap();
    assert_eq!(request.webview.as_ref().map(|w| w.as_str()), Some("preview"));
    let click = ClickArgs { window: None, webview: Some("preview".to_owned()), element: "e1".to_owned() };
    assert_eq!(click.into_request().unwrap().webview.unwrap().as_str(), "preview");
}

#[test]
fn argument_conversion_reports_the_first_invalid_field() {
    let error = ClickArgs { window: Some(String::new()), webview: Some(String::new()), element: String::new() }
        .into_request()
        .err()
        .unwrap();
    assert_eq!(error.message, "invalid window id \"\"");
    let error = ClickArgs { window: None, webview: Some(String::new()), element: String::new() }
        .into_request()
        .err()
        .unwrap();
    assert_eq!(error.message, "invalid webview label \"\"");
    let press = PressArgs {
        window: Some(String::new()),
        webview: None,
        element: None,
        key: "a".to_owned(),
        modifiers: vec!["shift".to_owned(), "hyper".to_owned()],
    };
    assert_eq!(press.into_request().err().unwrap().message, "unknown key modifier \"hyper\"");
    let press = PressArgs {
        window: None,
        webview: None,
        element: Some("e1".to_owned()),
        key: "Enter".to_owned(),
        modifiers: vec!["shift".to_owned(), "alt".to_owned(), "shift".to_owned()],
    };
    let request = press.into_request().unwrap();
    assert_eq!(request.modifiers, vec![KeyModifier::Alt, KeyModifier::Shift]);
    let wait = WaitForArgs {
        window: Some(String::new()),
        webview: None,
        predicate: WaitPredicateArgs::RefAbsent { element: String::new() },
        timeout_ms: 5,
    };
    assert_eq!(wait.into_request().err().unwrap().message, "invalid element ref \"\"");
    let wait = WaitForArgs {
        window: None,
        webview: None,
        predicate: WaitPredicateArgs::PageTitleContains { needle: "Proof".to_owned() },
        timeout_ms: 5,
    };
    let request = wait.into_request().unwrap();
    assert!(matches!(request.predicate, WaitPredicate::PageTitleContains { ref needle } if needle == "Proof"));
    assert_eq!(request.timeout_ms, 5);
}

fn record(app: &str, pid: u32, port: u16, live: bool) -> DiscoveryRecord {
    DiscoveryRecord {
        path: format!("/d/{app}-{pid}.json"),
        file: DiscoveryFile {
            schema_version: DISCOVERY_SCHEMA_VERSION,
            app_id: app.to_owned(),
            pid,
            port,
            token: InstanceToken::generate().unwrap(),
        },
        live,
    }
}

#[test]
fn instance_selection_requires_exactly_one_live_match() {
    let scan = DiscoveryScan { instances: Vec::new(), unreadable: Vec::new() };
    let error = select_instance("/missing/agent-control", None, scan).err().unwrap();
    assert!(matches!(error, CarrierError::NoLiveInstance { .. }));
}

#[test]
fn selection_fronts_the_one_live_instance() {
    let scan = DiscoveryScan {
        instances: vec![record("dev.example.one", 7, 49152, false), record("dev.example.two", 8, 49153, true)],
        unreadable: Vec::new(),
    };
    let chosen = select_instance("/d", None, scan).unwrap();
    assert_eq!(chosen.file.app_id, "dev.example.two");
    assert_eq!(chosen.endpoint, "http://127.0.0.1:49153/mcp");
}

#[test]
fn ambiguity_lists_candidates_by_app_then_pid() {
    let scan = DiscoveryScan {
        instances: vec![
            record("dev.example.two", 3, 49153, true),
            record("dev.example.one", 9, 49152, true),
            record("dev.example.one", 4, 49154, true),
        ],
        unreadable: Vec::new(),
    };
    let error = select_instance("/d", None, scan).err().unwrap();
    match &error {
        CarrierError::AmbiguousInstances { candidates, .. } => assert_eq!(
            candidates,
            &vec![
                "dev.example.one (4)".to_owned(),
                "dev.example.one (9)".to_owned(),
                "dev.example.two (3)".to_owned(),
            ]
        ),
        other => panic!("expected ambiguity, got {other:?}"),
    }
    assert_eq!(
        error.message(),
        "more than one live agent-control instance in /d (dev.example.one (4), dev.example.one (9), dev.example.two (3)); pass --app-id"
    );
    let filtered = DiscoveryScan { instances: vec![record("dev.example.one", 9, 0, true)], unreadable: Vec::new() };
    let error = select_instance("/d", Some("dev.example.one"), filtered).err().unwrap();
    assert_eq!(error.message(), "invalid discovery record: instance dev.example.one (9) published port 0");
    let none = DiscoveryScan { instances: vec![record("dev.example.one", 9, 1, true)], unreadable: Vec::new() };
    let error = select_instance("/d", Some("dev.example.two"), none).err().unwrap();
    assert_eq!(error.message(), "no live agent-control instance for app \"dev.example.two\" in /d");
}

#[test]
fn discovery_dir_follows_platform_native_state_root_rules() {
    assert_eq!(resolve_discovery_dir(TargetPlatform::Linux, "/root/state"), "/root/state/longhorn/agent-control");
    assert_eq!(
        resolve_discovery_dir(TargetPlatform::MacOs, "/root/state"),
        "/root/state/longhorn/state/agent-control"
    );
    assert_eq!(
        resolve_discovery_dir(TargetPlatform::Windows, "C:\\root\\state"),
        "C:\\root\\state\\longhorn\\state\\agent-control"
    );
}

#[test]
fn state_override_is_an_explicit_root_not_a_parallel_one() {
    let dir = resolve_discovery_dir_with_state_override(TargetPlatform::Linux, "/root/injected-state");
    assert_eq!(dir, "/root/injected-state/agent-control");
}

#[test]
fn carrier_dir_resolution_order() {
    let env = EnvFacts { home: Some("/home/u".to_owned()), xdg_state_home: None, local_app_data: None };
    assert_eq!(
        resolve_carrier_dir(Some("/explicit".to_owned()), None, TargetPlatform::Linux, &env).unwrap(),
        "/explicit"
    );
    assert_eq!(
        resolve_carrier_dir(None, None, TargetPlatform::Linux, &env).unwrap(),
        "/home/u/.local/state/longhorn/agent-control"
    );
    assert_eq!(
        resolve_carrier_dir(None, Some("/s".to_owned()), TargetPlatform::Linux, &env).unwrap(),
        "/s/agent-control"
    );
    let bare = EnvFacts { home: None, xdg_state_home: None, local_app_data: None };
    let error = resolve_carrier_dir(None, None, TargetPlatform::MacOs, &bare).err().unwrap();
    assert_eq!(error.message(), "cannot resolve platform directories: HOME is missing");
}

#[test]
fn unsafe_app_ids_cannot_escape_the_directory() {
    for app_id in ["", ".", "..", "../escape", "a/b"] {
        assert!(validate_app_id(app_id).is_err(), "app id {app_id:?} must be rejected");
    }
    assert!(validate_app_id("dev.example.soundcheck").is_ok());
    assert!(validate_app_id(&"a".repeat(256)).is_err());
}

#[test]
fn record_names_round_trip() {
    let name = discovery_file_name("dev.example.soundcheck", 1234);
    assert_eq!(name, "dev.example.soundcheck-1234.json");
    assert_eq!(
        parse_record_stem("dev.example.my-app-42"),
        Some(("dev.example.my-app".to_owned(), 42))
    );
    assert_eq!(parse_record_stem("dev.example-+7"), Some(("dev.example".to_owned(), 7)));
    assert_eq!(parse_record_stem("nodash"), None);
    assert_eq!(parse_record_stem("app-4294967296"), None);
    assert_eq!(parse_record_stem("../x-1"), None);
    assert_eq!(parse_record_stem("app-"), None);
}

#[test]
fn client_arguments() {
    let argv = |words: &[&str]| -> Vec<String> {
        std::iter::once("client").chain(words.iter().copied()).map(str::to_owned).collect()
    };
    let args = parse_args(&argv(&["--app-id", "dev.example.one", "--discovery-dir", "/d"])).unwrap();
    assert_eq!(args.app_id.as_deref(), Some("dev.example.one"));
    assert_eq!(args.discovery_dir.as_deref(), Some("/d"));
    assert_eq!(parse_args(&argv(&["--help", "x"])).err().unwrap(), "help");
    assert_eq!(parse_args(&argv(&["--bogus", "x"])).err().unwrap(), "unknown flag --bogus");
    assert_eq!(parse_args(&argv(&["--app-id"])).err().unwrap(), "unexpected argument --app-id");
    assert_eq!(
        parse_args(&argv(&["--discovery-dir", "/d", "--state-root", "/s"])).err().unwrap(),
        "--discovery-dir and --state-root are mutually exclusive"
    );
    assert!(usage().starts_with("usage: longhorn-agent-control-client"));
}

#[test]
fn replies_map_onto_the_pending_request() {
    let error = http_status_error(401, b"  denied \n");
    assert_eq!(
        error,
        obj(vec![
            ("code", Json::Number("-32001".to_owned())),
            ("message", Json::String("carrier: control server answered HTTP 401: denied".to_owned())),
        ])
    );
    let bare = http_status_error(500, b"");
    assert_eq!(
        bare.get("message"),
        Some(&Json::String("carrier: control server answered HTTP 500".to_owned()))
    );
    assert_eq!(http_status_error(404, b"x").get("code"), Some(&Json::Number("-32002".to_owned())));
    assert!(matches!(reply_action(202, true, None, b""), ReplyAction::Nothing));
    assert!(matches!(reply_action(202, false, None, b""), ReplyAction::Answer(_)));
    assert!(matches!(reply_action(200, true, Some(vec![obj(vec![])]), b"{}"), ReplyAction::Nothing));
    assert!(matches!(reply_action(200, false, Some(vec![obj(vec![])]), b"{}"), ReplyAction::Write(ref w) if w.len() == 1));
    assert!(matches!(reply_action(400, true, Some(vec![obj(vec![])]), b"{}"), ReplyAction::Write(_)));
    assert!(matches!(reply_action(400, false, None, b"nope"), ReplyAction::Answer(_)));
    assert_eq!(split_reply(obj(vec![])), Some(vec![obj(vec![])]));
    assert_eq!(split_reply(Json::Array(vec![obj(vec![]), Json::Null])), None);
    assert_eq!(split_reply(Json::Array(vec![])), Some(vec![]));
    assert_eq!(split_reply(Json::Null), None);
    let cancel = obj(vec![("method", Json::String("notifications/cancelled".to_owned())), ("id", Json::Null)]);
    assert!(is_cancellation(&cancel));
    let request = obj(vec![
        ("method", Json::String("notifications/cancelled".to_owned())),
        ("id", Json::Number("1".to_owned())),
    ]);
    assert!(!is_cancellation(&request));
}

#[test]
fn publication_names_the_file_after_app_and_pid() {
    let token = InstanceToken::generate().expect("token");
    let expected = token.as_str().to_owned();
    let instance = DiscoveryInstance::prepare(
        "/state/longhorn/agent-control",
        "app.longhorn",
        4242,
        8123,
        token,
        TargetPlatform::Linux,
    )
    .expect("safe app id");
    assert_eq!(instance.path(), "/state/longhorn/agent-control/app.longhorn-4242.json");
    assert_eq!(instance.file().schema_version, DISCOVERY_SCHEMA_VERSION);
    assert_eq!(instance.file().app_id, "app.longhorn");
    assert_eq!(instance.file().pid, 4242);
    assert_eq!(instance.file().port, 8123);
    assert_eq!(instance.file().token.as_str(), expected);

    let windows = DiscoveryInstance::prepare(
        "C:\\state",
        "app",
        7,
        1,
        InstanceToken::generate().expect("token"),
        TargetPlatform::Windows,
    )
    .expect("safe app id");
    assert_eq!(windows.path(), "C:\\state\\app-7.json");
}

#[test]
fn publication_refuses_unsafe_app_ids_before_writing() {
    for unsafe_id in ["", ".", "..", "../escape", "a/b", "a b"] {
        let refused = DiscoveryInstance::prepare(
            "/state",
            unsafe_id,
            1,
            1,
            InstanceToken::generate().expect("token"),
            TargetPlatform::Linux,
        );
        match refused {
            Err(DiscoveryError::InvalidAppId { app_id }) => assert_eq!(app_id, unsafe_id),
            _ => panic!("unsafe app id {unsafe_id:?} must be refused"),
        }
    }
}

#[test]
fn command_arguments_validate_the_id_and_pass_the_payload() {
    let payload = obj(vec![("count", Json::Number("2".to_owned()))]);
    let request = CommandArgs { command: "workspace.reload".to_owned(), argument: Some(payload) }
        .into_request()
        .expect("a valid command id");
    assert_eq!(request.command.as_str(), "workspace.reload");
    assert_eq!(request.argument, Some(obj(vec![("count", Json::Number("2".to_owned()))])));

    let bare = CommandArgs { command: "a".to_owned(), argument: None }.into_request().unwrap();
    assert!(bare.argument.is_none());

    let refused = CommandArgs { command: String::new(), argument: None }.into_request();
    assert_eq!(refused.err().unwrap().message, "invalid command id \"\"");
}

#[test]
fn dead_pid_records_are_picked_for_the_sweep() {
    let scan = DiscoveryScan {
        instances: vec![
            record("dev.example.one", 7, 49152, false),
            record("dev.example.two", 8, 49153, true),
            record("dev.example.three", 9, 49154, false),
        ],
        unreadable: vec!["garbage.json".to_owned()],
    };
    let stale = stale_paths(&scan);
    assert_eq!(stale.len(), 2);
    assert_eq!(stale[0], scan.instances[0].path);
    assert_eq!(stale[1], scan.instances[2].path);
    assert!(stale_paths(&DiscoveryScan { instances: vec![], unreadable: vec![] }).is_empty());
}

#[test]
fn windows_paths_take_either_separator_at_the_end_of_the_base() {
    assert_eq!(
        resolve_discovery_dir_with_state_override(TargetPlatform::Windows, "C:/state/"),
        "C:/state/agent-control"
    );
    assert_eq!(
        resolve_discovery_dir_with_state_override(TargetPlatform::Windows, "C:\\state\\"),
        "C:\\state\\agent-control"
    );
    assert_eq!(
        resolve_discovery_dir_with_state_override(TargetPlatform::Windows, "C:\\state"),
        "C:\\state\\agent-control"
    );
    assert_eq!(
        resolve_discovery_dir_with_state_override(TargetPlatform::Linux, "/state/"),
        "/state/agent-control"
    );
}
