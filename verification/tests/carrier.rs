use longhorn_agent::control::carrier::{
    cancel_target, error_reply, request_id, stream_message, streams_reply, transport_error,
};
use longhorn_agent::control::json::Json;
use longhorn_agent::control::sse::SseParser;
use longhorn_agent::control::tools::CONTROL_TOOL_NAMES;

#[test]
fn sse_parser_emits_data_payloads_in_order() {
    let mut parser = SseParser::default();
    let payloads = parser
        .push(b"event: message\ndata: {\"a\":1}\n\ndata: {\"b\":2}\n\n")
        .unwrap();
    assert_eq!(payloads.len(), 2);
    assert_eq!(payloads[0], b"{\"a\":1}");
    assert_eq!(payloads[1], b"{\"b\":2}");
}

#[test]
fn sse_parser_handles_split_chunks_and_crlf() {
    let mut parser = SseParser::default();
    assert!(parser.push(b"data: {\"a\"").unwrap().is_empty());
    let payloads = parser.push(b":1}\r\n\r\n").unwrap();
    assert_eq!(payloads, vec![b"{\"a\":1}".to_vec()]);
}

#[test]
fn sse_parser_ignores_comments_and_empty_dispatches() {
    let mut parser = SseParser::default();
    let payloads = parser.push(b": keep-alive\n\n").unwrap();
    assert!(payloads.is_empty());
    assert_eq!(parser.finish(), None);
}

#[test]
fn control_tool_names_are_unique_and_sorted() {
    let mut sorted = CONTROL_TOOL_NAMES.to_vec();
    sorted.sort_unstable();
    sorted.dedup();
    assert_eq!(CONTROL_TOOL_NAMES, sorted.as_slice());
}

#[test]
fn transport_failures_answer_with_a_correlated_error_reply() {
    let reply = error_reply(Json::Number("7".to_owned()), transport_error("refused"));
    assert_eq!(
        reply,
        Json::Object(vec![
            ("jsonrpc".to_owned(), Json::String("2.0".to_owned())),
            ("id".to_owned(), Json::Number("7".to_owned())),
            ("error".to_owned(), transport_error("refused")),
        ])
    );
}

fn object(members: Vec<(&str, Json)>) -> Json {
    Json::Object(members.into_iter().map(|(k, v)| (k.to_owned(), v)).collect())
}

#[test]
fn message_ids_and_cancellation_targets_are_read_from_the_message() {
    let request = object(vec![("id", Json::Number("3".to_owned())), ("method", Json::String("ping".to_owned()))]);
    assert_eq!(request_id(&request), Some(&Json::Number("3".to_owned())));
    assert_eq!(request_id(&object(vec![("id", Json::Null)])), None);
    assert_eq!(request_id(&object(vec![("method", Json::String("x".to_owned()))])), None);

    let cancel = object(vec![
        ("method", Json::String("notifications/cancelled".to_owned())),
        ("params", object(vec![("requestId", Json::String("a".to_owned()))])),
    ]);
    assert_eq!(cancel_target(&cancel), Some(&Json::String("a".to_owned())));
    assert_eq!(cancel_target(&object(vec![("params", object(vec![]))])), None);
}

#[test]
fn only_successful_event_streams_are_streamed() {
    assert!(streams_reply(200, "text/event-stream"));
    assert!(streams_reply(200, "text/event-stream; charset=utf-8"));
    assert!(!streams_reply(202, "text/event-stream"));
    assert!(!streams_reply(500, "text/event-stream"));
    assert!(!streams_reply(200, "application/json"));
}

#[test]
fn stream_payloads_carry_only_objects() {
    let message = || object(vec![("id", Json::Number("1".to_owned()))]);
    assert_eq!(stream_message(b"{\"id\":1}", Some(message())), Some(message()));
    assert_eq!(stream_message(b"", Some(object(vec![]))), None);
    assert_eq!(stream_message(b"[1]", Some(Json::Array(vec![]))), None);
    assert_eq!(stream_message(b"nope", None), None);
}
