use base64::Engine;
use longhorn_agent::control::headers::{
    encode_header_value, observe_server_message, prepare_outgoing, requires_base64,
    SessionState, BASE64_PREFIX, BASE64_SUFFIX,
};
use longhorn_agent::control::json::Json;

fn s(text: &str) -> Json {
    Json::String(text.to_owned())
}

fn n(text: &str) -> Json {
    Json::Number(text.to_owned())
}

fn obj(members: Vec<(&str, Json)>) -> Json {
    Json::Object(members.into_iter().map(|(k, v)| (k.to_owned(), v)).collect())
}

fn members(value: Json) -> Vec<(String, Json)> {
    match value {
        Json::Object(m) => m,
        _ => panic!("not an object"),
    }
}

fn session_at(version: &str) -> SessionState {
    SessionState { negotiated: Some(version.to_owned()), tool_schemas: Vec::new() }
}

fn prepare(message: Json, session: &SessionState) -> (Json, Vec<(String, String)>) {
    let mut message = message;
    let headers = prepare_outgoing(&mut message, session);
    (message, headers)
}

fn has(headers: &[(String, String)], name: &str, value: &str) -> bool {
    headers.iter().any(|(k, v)| k == name && v == value)
}

#[test]
fn unnegotiated_messages_carry_method_but_no_version() {
    let (_, headers) = prepare(
        obj(vec![("jsonrpc", s("2.0")), ("id", n("1")), ("method", s("tools/list")), ("params", obj(vec![]))]),
        &SessionState::default(),
    );
    assert!(has(&headers, "Mcp-Method", "tools/list"));
    assert!(!headers.iter().any(|(name, _)| name == "MCP-Protocol-Version"));
}

#[test]
fn negotiated_modern_version_adds_version_and_name() {
    let (_, headers) = prepare(
        obj(vec![
            ("jsonrpc", s("2.0")),
            ("id", n("1")),
            ("method", s("tools/call")),
            ("params", obj(vec![("name", s("snapshot")), ("arguments", obj(vec![]))])),
        ]),
        &session_at("2026-07-28"),
    );
    assert!(has(&headers, "Mcp-Method", "tools/call"));
    assert!(has(&headers, "Mcp-Name", "snapshot"));
    assert!(has(&headers, "MCP-Protocol-Version", "2026-07-28"));
}

#[test]
fn older_negotiated_version_stays_on_the_legacy_path() {
    let (message, headers) = prepare(
        obj(vec![
            ("jsonrpc", s("2.0")),
            ("id", n("1")),
            ("method", s("resources/read")),
            ("params", obj(vec![("uri", s("longhorn://agent-control/console"))])),
        ]),
        &session_at("2025-06-18"),
    );
    assert!(has(&headers, "Mcp-Method", "resources/read"));
    assert!(has(&headers, "Mcp-Name", "longhorn://agent-control/console"));
    assert!(has(&headers, "MCP-Protocol-Version", "2025-06-18"));
    assert!(message.get("params").unwrap().get("_meta").is_none());
}

#[test]
fn resource_uris_source_the_name_header() {
    let (_, headers) = prepare(
        obj(vec![
            ("jsonrpc", s("2.0")),
            ("id", n("1")),
            ("method", s("resources/read")),
            ("params", obj(vec![("uri", s("longhorn://agent-control/console"))])),
        ]),
        &session_at("2026-07-28"),
    );
    assert!(has(&headers, "Mcp-Name", "longhorn://agent-control/console"));
}

#[test]
fn plain_harness_params_gain_the_meta_envelope() {
    let (message, _) = prepare(
        obj(vec![("jsonrpc", s("2.0")), ("id", n("1")), ("method", s("tools/list")), ("params", obj(vec![]))]),
        &session_at("2026-07-28"),
    );
    let meta = message.get("params").unwrap().get("_meta").unwrap();
    assert_eq!(meta.get("io.modelcontextprotocol/protocolVersion"), Some(&s("2026-07-28")));
    assert_eq!(meta.get("io.modelcontextprotocol/clientCapabilities"), Some(&obj(vec![])));
}

#[test]
fn harness_declared_meta_is_never_rewritten() {
    let (message, headers) = prepare(
        obj(vec![
            ("jsonrpc", s("2.0")),
            ("id", n("1")),
            ("method", s("tools/list")),
            (
                "params",
                obj(vec![(
                    "_meta",
                    obj(vec![
                        ("io.modelcontextprotocol/protocolVersion", s("2026-07-28")),
                        ("io.modelcontextprotocol/clientCapabilities", obj(vec![("roots", obj(vec![]))])),
                        ("io.modelcontextprotocol/clientInfo", obj(vec![("name", s("harness")), ("version", s("1"))])),
                    ]),
                )]),
            ),
        ]),
        &session_at("2026-07-28"),
    );
    let meta = message.get("params").unwrap().get("_meta").unwrap();
    assert_eq!(
        meta.get("io.modelcontextprotocol/clientCapabilities"),
        Some(&obj(vec![("roots", obj(vec![]))]))
    );
    assert_eq!(
        meta.get("io.modelcontextprotocol/clientInfo").unwrap().get("name"),
        Some(&s("harness"))
    );
    assert!(has(&headers, "MCP-Protocol-Version", "2026-07-28"));
}

#[test]
fn harness_declared_older_version_selects_the_legacy_path() {
    let (message, headers) = prepare(
        obj(vec![
            ("jsonrpc", s("2.0")),
            ("id", n("1")),
            ("method", s("tools/list")),
            ("params", obj(vec![("_meta", obj(vec![("io.modelcontextprotocol/protocolVersion", s("2025-06-18"))]))])),
        ]),
        &session_at("2026-07-28"),
    );
    assert!(has(&headers, "MCP-Protocol-Version", "2025-06-18"));
    assert!(message
        .get("params")
        .unwrap()
        .get("_meta")
        .unwrap()
        .get("io.modelcontextprotocol/clientCapabilities")
        .is_none());
}

#[test]
fn non_ascii_names_are_base64_wrapped() {
    let standard = base64::engine::general_purpose::STANDARD;
    assert_eq!(
        encode_header_value("snap–shot"),
        format!("{BASE64_PREFIX}{}{BASE64_SUFFIX}", standard.encode("snap–shot"))
    );
    assert_eq!(encode_header_value("snapshot"), "snapshot");
}

#[test]
fn annotated_tool_arguments_promote_to_param_headers() {
    let mut session = session_at("2026-07-28");
    session.tool_schemas.push((
        "press".to_owned(),
        members(obj(vec![
            ("type", s("object")),
            (
                "properties",
                obj(vec![
                    ("key", obj(vec![("type", s("string")), ("x-mcp-header", s("key"))])),
                    ("nested", obj(vec![("type", s("object")), ("x-mcp-header", s("nested"))])),
                ]),
            ),
        ])),
    ));
    let (_, headers) = prepare(
        obj(vec![
            ("jsonrpc", s("2.0")),
            ("id", n("1")),
            ("method", s("tools/call")),
            (
                "params",
                obj(vec![
                    ("name", s("press")),
                    ("arguments", obj(vec![("key", s("Enter")), ("nested", obj(vec![("a", n("1"))]))])),
                ]),
            ),
        ]),
        &session,
    );
    assert!(has(&headers, "Mcp-Param-key", "Enter"));
    assert!(!headers.iter().any(|(name, _)| name == "Mcp-Param-nested"));
}

#[test]
fn initialize_result_negotiates_the_version() {
    let mut session = SessionState::default();
    observe_server_message(
        &obj(vec![("jsonrpc", s("2.0")), ("id", n("1")), ("result", obj(vec![("protocolVersion", s("2026-07-28"))]))]),
        Some("initialize"),
        &mut session,
    );
    assert!(session.standard_headers());
}

#[test]
fn tools_list_result_caches_input_schemas() {
    let mut session = session_at("2026-07-28");
    observe_server_message(
        &obj(vec![
            ("jsonrpc", s("2.0")),
            ("id", n("2")),
            (
                "result",
                obj(vec![(
                    "tools",
                    Json::Array(vec![obj(vec![
                        ("name", s("press")),
                        ("inputSchema", obj(vec![("type", s("object")), ("properties", obj(vec![]))])),
                    ])]),
                )]),
            ),
        ]),
        Some("tools/list"),
        &mut session,
    );
    assert!(session.schema_for("press").is_some());
}

#[test]
fn param_headers_come_in_property_name_order() {
    let mut session = session_at("2026-07-28");
    session.tool_schemas.push((
        "type".to_owned(),
        members(obj(vec![(
            "properties",
            obj(vec![
                ("zeta", obj(vec![("x-mcp-header", s("Z"))])),
                ("alpha", obj(vec![("x-mcp-header", s("A"))])),
                ("mid", obj(vec![("x-mcp-header", s("M"))])),
            ]),
        )])),
    ));
    let (_, headers) = prepare(
        obj(vec![
            ("method", s("tools/call")),
            (
                "params",
                obj(vec![
                    ("name", s("type")),
                    ("arguments", obj(vec![("zeta", Json::Bool(true)), ("alpha", n("7")), ("mid", s(" padded"))])),
                ]),
            ),
        ]),
        &session,
    );
    let params: Vec<&(String, String)> = headers.iter().filter(|(k, _)| k.starts_with("Mcp-Param-")).collect();
    assert_eq!(params.len(), 3);
    assert_eq!(params[0], &("Mcp-Param-A".to_owned(), "7".to_owned()));
    let standard = base64::engine::general_purpose::STANDARD;
    assert_eq!(params[1], &("Mcp-Param-M".to_owned(), format!("=?base64?{}?=", standard.encode(" padded"))));
    assert_eq!(params[2], &("Mcp-Param-Z".to_owned(), "true".to_owned()));
}

#[test]
fn base64_wrapping_rules() {
    assert!(!requires_base64(""));
    assert!(requires_base64(" lead"));
    assert!(requires_base64("trail\t"));
    assert!(requires_base64("tab\tinside"));
    assert!(requires_base64("=?base64?abc?="));
    assert!(!requires_base64("=?base64?abc"));
    assert!(!requires_base64("plain-value"));
}

#[test]
fn messages_without_a_method_get_no_headers() {
    let original = obj(vec![("jsonrpc", s("2.0")), ("id", n("3")), ("result", obj(vec![]))]);
    let (message, headers) = prepare(
        obj(vec![("jsonrpc", s("2.0")), ("id", n("3")), ("result", obj(vec![]))]),
        &session_at("2026-07-28"),
    );
    assert!(headers.is_empty());
    assert_eq!(message, original);
}
