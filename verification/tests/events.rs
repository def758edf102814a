use longhorn_agent::control::events::{
    all_resources, event_batch, event_resource_body, listen_tick, read_events_script, route_resource, ListenState,
    ResourceRoute, CONSOLE_URI, ERROR_URI, NAVIGATION_URI, SELECTION_URI,
};
use longhorn_agent::control::json::Json;
use longhorn_agent::control::server::{evaluate_omitted, instructions};
use longhorn_agent::control::tools::ToolError;

fn object(members: Vec<(&str, Json)>) -> Json {
    Json::Object(members.into_iter().map(|(k, v)| (k.to_owned(), v)).collect())
}

fn num(n: u64) -> Json {
    Json::Number(n.to_string())
}

fn text(s: &str) -> Json {
    Json::String(s.to_owned())
}

fn event(seq: u64, kind: &str) -> Json {
    object(vec![("seq", num(seq)), ("kind", text(kind))])
}

#[test]
fn ring_read_script_names_the_cursor_twice() {
    assert_eq!(
        read_events_script(7),
        "JSON.stringify(globalThis.__longhornAgentControl ? globalThis.__longhornAgentControl.readEvents(7) : {events:[], nextSeq:7, dropped:0})"
    );
}

#[test]
fn ring_reply_defaults_when_members_are_missing() {
    let reply = object(vec![
        ("events", Json::Array(vec![event(3, "console")])),
        ("nextSeq", num(4)),
        ("dropped", num(2)),
    ]);
    let batch = event_batch(&reply, 0);
    assert_eq!(batch.events, vec![event(3, "console")]);
    assert_eq!(batch.next_seq, 4);
    assert_eq!(batch.dropped, 2);

    let bare = event_batch(&object(vec![("events", text("not an array"))]), 9);
    assert!(bare.events.is_empty());
    assert_eq!(bare.next_seq, 9);
    assert_eq!(bare.dropped, 0);

    let not_object = event_batch(&Json::Null, 5);
    assert!(not_object.events.is_empty());
    assert_eq!(not_object.next_seq, 5);
}

#[test]
fn event_resource_keeps_only_its_kind() {
    let reply = object(vec![
        (
            "events",
            Json::Array(vec![event(1, "console"), event(2, "error"), event(3, "console")]),
        ),
        ("nextSeq", num(4)),
        ("dropped", num(0)),
    ]);
    let batch = event_batch(&reply, 0);
    let body = event_resource_body(CONSOLE_URI, &batch).expect("console is an event resource");
    assert_eq!(
        body,
        object(vec![
            ("events", Json::Array(vec![event(1, "console"), event(3, "console")])),
            ("nextSeq", num(4)),
            ("dropped", num(0)),
        ])
    );
    let errors = event_resource_body(ERROR_URI, &batch).expect("error is an event resource");
    assert_eq!(
        errors,
        object(vec![
            ("events", Json::Array(vec![event(2, "error")])),
            ("nextSeq", num(4)),
            ("dropped", num(0)),
        ])
    );
    assert!(event_resource_body(SELECTION_URI, &batch).is_none());
    assert!(event_resource_body("longhorn://agent-control/other", &batch).is_none());
}

#[test]
fn listen_announces_selection_moves_and_subscribed_events() {
    let subscribed = vec![SELECTION_URI.to_owned(), NAVIGATION_URI.to_owned()];
    let start = ListenState { cursor: 0, selection_generation: 1 };

    // Nothing moved and the ring is unreadable: nothing to announce.
    let (same, quiet) = listen_tick(&start, &subscribed, 1, None);
    assert_eq!((same.cursor, same.selection_generation), (0, 1));
    assert!(quiet.is_empty());

    // The registry moved and the ring delivered a batch.
    let batch = vec![event(1, "console"), event(2, "navigation"), event(3, "navigation")];
    let (next, announced) = listen_tick(&start, &subscribed, 2, Some(&batch));
    assert_eq!(next.cursor, 3);
    assert_eq!(next.selection_generation, 2);
    assert_eq!(
        announced,
        vec![SELECTION_URI.to_owned(), NAVIGATION_URI.to_owned(), NAVIGATION_URI.to_owned()]
    );

    // Without a selection subscription the generation is not followed.
    let console_only = vec![CONSOLE_URI.to_owned()];
    let (later, only_console) = listen_tick(&start, &console_only, 5, Some(&batch));
    assert_eq!(later.selection_generation, 1);
    assert_eq!(later.cursor, 3);
    assert_eq!(only_console, vec![CONSOLE_URI.to_owned()]);
}

#[test]
fn listen_keeps_the_cursor_when_a_batch_has_no_seq() {
    let start = ListenState { cursor: 12, selection_generation: 0 };
    let (next, announced) = listen_tick(&start, &vec![], 0, Some(&vec![]));
    assert_eq!(next.cursor, 12);
    assert!(announced.is_empty());
}

#[test]
fn resource_reads_route_by_uri() {
    assert!(matches!(route_resource(SELECTION_URI), ResourceRoute::Selection));
    assert!(matches!(route_resource(CONSOLE_URI), ResourceRoute::Events("console")));
    assert!(matches!(route_resource(NAVIGATION_URI), ResourceRoute::Events("navigation")));
    match route_resource("longhorn://agent-control/other") {
        ResourceRoute::Unknown(message) => {
            assert_eq!(message, "unknown resource longhorn://agent-control/other")
        }
        _ => panic!("an unknown URI must be refused"),
    }
}

#[test]
fn instructions_mark_builds_with_page_evaluation() {
    assert!(instructions(true).contains("full code execution in the app"));
    assert!(!instructions(false).contains("full code execution in the app"));
    assert!(instructions(false).contains("evaluate answers typed Unsupported"));
    match evaluate_omitted() {
        ToolError::Unsupported { message } => assert_eq!(
            message,
            "evaluate is omitted from this build; enable the agent-control-evaluate feature"
        ),
        _ => panic!("evaluate without the feature is unsupported"),
    }
}

#[test]
fn event_resources_are_listed_in_order() {
    let listed: Vec<(&str, &str, &str, &str)> = all_resources()
        .iter()
        .map(|r| (r.uri, r.name, r.description, r.mime_type))
        .collect();
    assert_eq!(
        listed,
        vec![
            (CONSOLE_URI, "console", "Console output captured in the page", "application/json"),
            (ERROR_URI, "page-error", "Uncaught page errors and unhandled rejections", "application/json"),
            (NAVIGATION_URI, "navigation", "In-page navigation events", "application/json"),
        ]
    );
}
