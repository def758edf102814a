use longhorn_agent::control::json::Json;
use longhorn_agent::control::selection::{
    path_string, plugin_result, selection_id_from_random, validate_answer, BeginSelectionRequest,
    PathFacts,
    SelectionKind, SelectionOutcome, SelectionRegistry,
};
use longhorn_agent::control::tools::{SelectionId, ToolError};

fn open_file_request() -> BeginSelectionRequest {
    BeginSelectionRequest {
        kind: SelectionKind::Open,
        directory: false,
        multiple: false,
        filters: Vec::new(),
        title: Some("Open".to_owned()),
        default_path: None,
        window: Some("main".to_owned()),
        webview: None,
    }
}

fn request(kind: SelectionKind, directory: bool, multiple: bool) -> BeginSelectionRequest {
    BeginSelectionRequest {
        kind,
        directory,
        multiple,
        filters: Vec::new(),
        title: None,
        default_path: None,
        window: None,
        webview: None,
    }
}

const FILE: PathFacts = PathFacts { exists: true, is_dir: false, is_file: true };
const DIR: PathFacts = PathFacts { exists: true, is_dir: true, is_file: false };
const MISSING: PathFacts = PathFacts { exists: false, is_dir: false, is_file: false };

#[test]
fn answer_resolves_the_waiter_with_the_path() {
    let file = path_string("/tmp/dir/leaf.txt");
    let mut registry = SelectionRegistry::new("app:1");
    let id = registry.begin(open_file_request(), 0).unwrap();
    assert_eq!(registry.pending(1).len(), 1);
    assert_eq!(registry.pending(1)[0].instance, "app:1");
    registry.answer(&id, &vec![file.clone()], &vec![FILE], 2).unwrap();
    let deliveries = registry.take_deliveries();
    assert_eq!(deliveries.len(), 1);
    assert_eq!(deliveries[0].id, id);
    assert_eq!(deliveries[0].outcome, SelectionOutcome::Answered(vec![file.clone()]));
    assert!(registry.pending(3).is_empty());
    let again = registry.answer(&id, &vec![file], &vec![FILE], 4).unwrap_err();
    assert_eq!(again, ToolError::SettledSelection { id });
}

#[test]
fn reject_resolves_as_cancelled_plugin_null() {
    let mut registry = SelectionRegistry::new("app:1");
    let id = registry.begin(open_file_request(), 0).unwrap();
    registry.reject(&id, 1).unwrap();
    let deliveries = registry.take_deliveries();
    assert_eq!(deliveries[0].outcome, SelectionOutcome::Rejected);
    assert_eq!(plugin_result(&id, false, &SelectionOutcome::Rejected).unwrap(), Json::Null);
}

#[test]
fn expiry_fails_typed_and_settles_once() {
    let mut registry = SelectionRegistry::with_ttl("app:1", 30);
    let id = registry.begin(open_file_request(), 0).unwrap();
    assert_eq!(registry.pending(29).len(), 1);
    let error = registry.answer(&id, &vec!["/nope".to_owned()], &vec![MISSING], 30).unwrap_err();
    assert_eq!(error, ToolError::ExpiredSelection { id: id.duplicate() });
    let deliveries = registry.take_deliveries();
    assert_eq!(deliveries.len(), 1);
    assert_eq!(deliveries[0].outcome, SelectionOutcome::Expired);
    registry.expire(&id, 31);
    assert!(registry.take_deliveries().is_empty());
}

#[test]
fn drop_cancels_so_the_caller_does_not_hang() {
    let mut registry = SelectionRegistry::new("app:1");
    let id = registry.begin(open_file_request(), 0).unwrap();
    registry.cancel(&id, 1);
    assert!(registry.pending(2).is_empty());
    assert_eq!(registry.reject(&id, 3).unwrap_err(), ToolError::SettledSelection { id: id.duplicate() });
    let deliveries = registry.take_deliveries();
    assert_eq!(deliveries.len(), 1);
    assert_eq!(deliveries[0].outcome, SelectionOutcome::Cancelled);
}

#[test]
fn shutdown_settles_pending_waiters() {
    let mut registry = SelectionRegistry::new("app:1");
    let id = registry.begin(open_file_request(), 0).unwrap();
    let generation = registry.generation();
    registry.shutdown();
    assert_eq!(registry.generation(), generation + 1);
    let deliveries = registry.take_deliveries();
    assert_eq!(deliveries.len(), 1);
    assert_eq!(deliveries[0].id, id);
    assert_eq!(deliveries[0].outcome, SelectionOutcome::Shutdown);
    assert!(registry.pending(1).is_empty());
    registry.shutdown();
    assert_eq!(registry.generation(), generation + 1);
    assert!(registry.take_deliveries().is_empty());
}

#[test]
fn unknown_id_and_wrong_instance_are_typed() {
    let mut a = SelectionRegistry::new("app:1");
    let mut b = SelectionRegistry::new("app:2");
    let id = a.begin(open_file_request(), 0).unwrap();
    assert!(matches!(
        b.answer(&id, &vec!["/nope".to_owned()], &vec![MISSING], 1).unwrap_err(),
        ToolError::UnknownSelection { .. }
    ));
}

#[test]
fn save_rejects_multi_path_and_does_not_write() {
    let target = path_string("/tmp/out.txt");
    let mut registry = SelectionRegistry::new("app:1");
    let id = registry.begin(request(SelectionKind::Save, false, false), 0).unwrap();
    assert!(registry
        .answer(&id, &vec![target.clone(), target.clone()], &vec![MISSING, MISSING], 1)
        .is_err());
    registry.answer(&id, &vec![target], &vec![MISSING], 2).unwrap();
}

#[test]
fn open_directory_rejects_a_file() {
    let file = path_string("/tmp/dir/leaf.txt");
    let mut registry = SelectionRegistry::new("app:1");
    let id = registry.begin(request(SelectionKind::Open, true, false), 0).unwrap();
    let error = registry.answer(&id, &vec![file], &vec![FILE], 1).unwrap_err();
    assert!(matches!(error, ToolError::MalformedSelection { .. }));
}

#[test]
fn late_pending_read_sees_the_request() {
    let mut registry = SelectionRegistry::new("app:1");
    let id = registry.begin(open_file_request(), 0).unwrap();
    let body = registry.resource_body(1);
    assert_eq!(body.pending.len(), 1);
    assert_eq!(body.pending[0].id, id);
}

#[test]
fn generation_bumps_on_begin_and_each_settlement() {
    let mut registry = SelectionRegistry::new("app:1");
    assert_eq!(registry.generation(), 0);
    let first = registry.begin(open_file_request(), 0).unwrap();
    assert_eq!(registry.generation(), 1);
    let second = registry.begin(open_file_request(), 0).unwrap();
    assert_eq!(registry.generation(), 2);
    registry.reject(&first, 1).unwrap();
    assert_eq!(registry.generation(), 3);
    assert!(registry.reject(&first, 1).is_err());
    assert_eq!(registry.generation(), 3);
    registry.cancel(&second, 1);
    assert_eq!(registry.generation(), 4);
}

#[test]
fn selection_ids_are_prefixed_and_fresh() {
    let mut registry = SelectionRegistry::new("app:1");
    let a = registry.begin(open_file_request(), 0).unwrap();
    let b = registry.begin(open_file_request(), 0).unwrap();
    assert!(a.as_str().starts_with("sel_"));
    assert_eq!(a.as_str().len(), 20);
    assert_ne!(a, b);
}

#[test]
fn answers_are_checked_against_the_request() {
    let mut registry = SelectionRegistry::new("app:1");
    let id = registry.begin(request(SelectionKind::Open, false, true), 0).unwrap();
    let pending = registry.pending(0);
    let spec = &pending[0];
    let malformed = |r: Result<(), ToolError>| match r {
        Err(ToolError::MalformedSelection { message }) => message,
        other => panic!("expected a malformed answer, got {other:?}"),
    };
    assert_eq!(
        malformed(validate_answer(spec, &vec![], &vec![])),
        "multiple open requires at least one path"
    );
    assert_eq!(
        malformed(validate_answer(spec, &vec!["".to_owned()], &vec![FILE])),
        "paths must be non-empty and must not contain NUL"
    );
    assert_eq!(
        malformed(validate_answer(spec, &vec!["a\0b".to_owned()], &vec![FILE])),
        "paths must be non-empty and must not contain NUL"
    );
    assert_eq!(
        malformed(validate_answer(spec, &vec!["/a".to_owned(), "/gone".to_owned()], &vec![FILE, MISSING])),
        "open path \"/gone\" does not exist"
    );
    assert_eq!(
        malformed(validate_answer(spec, &vec!["/d".to_owned()], &vec![DIR])),
        "open file path \"/d\" is not a file"
    );
    validate_answer(spec, &vec!["/a".to_owned(), "/b".to_owned()], &vec![FILE, FILE]).unwrap();
    let save = registry.begin(request(SelectionKind::Save, false, false), 0).unwrap();
    let pending = registry.pending(0);
    let save_spec = pending.iter().find(|p| p.id == save).unwrap();
    assert_eq!(
        malformed(validate_answer(save_spec, &vec!["/d".to_owned()], &vec![DIR])),
        "save path must not be an existing directory"
    );
    let single = registry.begin(request(SelectionKind::Open, true, false), 0).unwrap();
    let pending = registry.pending(0);
    let single_spec = pending.iter().find(|p| p.id == single).unwrap();
    assert_eq!(
        malformed(validate_answer(single_spec, &vec!["/a".to_owned(), "/b".to_owned()], &vec![DIR, DIR])),
        "single open accepts exactly one path"
    );
    assert_eq!(
        malformed(validate_answer(single_spec, &vec!["/f".to_owned()], &vec![FILE])),
        "open directory path \"/f\" is not a directory"
    );
    let _ = id;
}

#[test]
fn plugin_results_map_each_outcome() {
    let id = SelectionId::new("sel_x").unwrap();
    let answered = SelectionOutcome::Answered(vec!["/a".to_owned(), "/b".to_owned()]);
    assert_eq!(
        plugin_result(&id, true, &answered).unwrap(),
        Json::Array(vec![Json::String("/a".to_owned()), Json::String("/b".to_owned())])
    );
    assert_eq!(plugin_result(&id, false, &answered).unwrap(), Json::String("/a".to_owned()));
    assert_eq!(
        plugin_result(&id, false, &SelectionOutcome::Answered(vec![])).unwrap(),
        Json::String(String::new())
    );
    assert_eq!(
        plugin_result(&id, false, &SelectionOutcome::Expired).unwrap_err(),
        ToolError::ExpiredSelection { id: id.duplicate() }
    );
    assert_eq!(
        plugin_result(&id, false, &SelectionOutcome::Shutdown).unwrap_err(),
        ToolError::Unsupported { message: "selection was cancelled before settlement".to_owned() }
    );
}

#[test]
fn request_ids_are_sel_and_the_base64url_of_twelve_bytes() {
    let zeros = selection_id_from_random(&vec![0u8; 12]).expect("twelve bytes form an id");
    assert_eq!(zeros.as_str(), "sel_AAAAAAAAAAAAAAAA");
    let ones = selection_id_from_random(&vec![0xffu8; 12]).expect("twelve bytes form an id");
    assert_eq!(ones.as_str(), "sel_________________");
    let mixed = selection_id_from_random(&vec![0xfb, 0xef, 0xbe, 0, 0, 0, 0, 0, 0, 0, 0, 1])
        .expect("twelve bytes form an id");
    assert_eq!(mixed.as_str(), "sel_----AAAAAAAAAAAB");
}
