use pty_bridge::hooks::{
    acknowledgement, check_control, cleanup_result, find_owner, parse_response, prepare, HookError,
};
use pty_bridge::platform::ProcessLocator;
use pty_bridge::runtime::Ownership;
use serde_json::Value;

fn object(fields: Vec<(&str, Value)>) -> Value {
    let mut map = serde_json::Map::new();
    for (key, value) in fields {
        map.insert(key.to_string(), value);
    }
    Value::Object(map)
}

fn text(value: &str) -> Value {
    Value::String(value.to_string())
}

fn record(session: &str) -> Ownership {
    Ownership {
        host_session_id: "host".to_string(),
        instance_id: "inst".to_string(),
        session_id: session.to_string(),
        port: 1,
        process: ProcessLocator::Unix { process_id: 1, process_group: None },
    }
}

#[test]
fn reads_actual_structured_and_text_mcp_results() {
    let result = object(vec![("receipt", text("r1")), ("next_cursor", Value::from(5))]);
    let structured = object(vec![("structuredContent", result.clone())]);
    let block = object(vec![("type", text("text")), ("text", text(&result.to_string()))]);
    for response in [
        Value::String(structured.to_string()),
        object(vec![("content", Value::Array(vec![block]))]),
    ] {
        assert_eq!(parse_response(response).unwrap(), result);
    }
}

#[test]
fn responses_of_unknown_shape_are_refused() {
    let error = parse_response(Value::Null).unwrap_err();
    assert!(matches!(error, HookError::UnsupportedResponse));
    assert_eq!(error.describe(), "unsupported MCP response shape");
    assert!(matches!(
        parse_response(Value::Array(vec![])).unwrap_err(),
        HookError::UnsupportedResponse
    ));
    let broken = parse_response(text("{")).unwrap_err();
    assert!(matches!(broken, HookError::MalformedResponse(_)));
    assert!(broken.describe().contains("EOF"));
    let mut deep = object(vec![]);
    for _ in 0..5 {
        deep = object(vec![("structuredContent", deep)]);
    }
    assert!(parse_response(deep).is_err());
    let mut four = object(vec![]);
    for _ in 0..4 {
        four = object(vec![("structuredContent", four)]);
    }
    assert_eq!(parse_response(four).unwrap(), object(vec![]));
}

#[test]
fn blocks_without_text_are_skipped() {
    let inner = object(vec![("receipt", text("r"))]);
    let image = object(vec![("type", text("image"))]);
    let block = object(vec![("text", text(&inner.to_string()))]);
    let response = object(vec![("content", Value::Array(vec![image, block]))]);
    assert_eq!(parse_response(response).unwrap(), inner);
    let plain = object(vec![("content", Value::Array(vec![]))]);
    assert_eq!(parse_response(plain.clone()).unwrap(), plain);
}

#[test]
fn starts_are_owned_by_the_host_session() {
    let input = object(vec![
        ("program", text("sh")),
        ("args", Value::Array(vec![text("-c"), text("echo x")])),
        ("host_session_id", text("incorrect")),
    ]);
    let prepared = prepare("host_1", &input).unwrap();
    assert_eq!(prepared["host_session_id"], "host_1");
    assert_eq!(prepared["args"], input["args"]);
    assert_eq!(prepared["program"], "sh");
    assert_eq!(prepared.as_object().unwrap().len(), 3);
    let invalid = prepare("../x", &input).unwrap_err();
    assert_eq!(invalid.describe(), "invalid identifier");
    let shape = prepare("host_1", &Value::Null).unwrap_err();
    assert_eq!(shape.describe(), "start input must be an object");
}

#[test]
fn reads_are_acknowledged_by_their_receipt() {
    let input = object(vec![("session_id", text("pty_x"))]);
    let response = object(vec![("receipt", text("read_1"))]);
    let ack = acknowledgement(&input, response.clone()).unwrap().unwrap();
    assert_eq!(ack.session_id, "pty_x");
    assert_eq!(ack.receipt, "read_1");
    assert!(acknowledgement(&input, object(vec![])).unwrap().is_none());
    let missing = acknowledgement(&Value::Null, response).unwrap_err();
    assert_eq!(missing.describe(), "read input has no session_id");
    assert!(acknowledgement(&input, Value::Null).is_err());
}

#[test]
fn owners_are_found_by_session() {
    let records = vec![record("a"), record("b"), record("b")];
    assert_eq!(find_owner(&records, "b"), Some(1));
    assert_eq!(find_owner(&records, "c"), None);
}

#[test]
fn refused_requests_say_why() {
    assert!(check_control(&object(vec![("ok", Value::Bool(true))])).is_ok());
    let refused = object(vec![("ok", Value::Bool(false)), ("error", text("no"))]);
    assert_eq!(
        check_control(&refused).unwrap_err().describe(),
        "control request rejected: \"no\""
    );
    assert_eq!(
        check_control(&object(vec![])).unwrap_err().describe(),
        "control request rejected: null"
    );
}

#[test]
fn cleanups_report_everything_that_went_wrong() {
    assert!(cleanup_result(&vec![]).is_ok());
    let errors = vec!["a".to_string(), "b".to_string()];
    assert_eq!(
        cleanup_result(&errors).unwrap_err().describe(),
        "PTY cleanup failed: a, b"
    );
}
