use loco::engine::json::{json_get, Json};
use loco::engine::prompt::{tool_response_message, user_message};
use loco::engine::schema::default_tools;

fn field<'a>(v: &'a Json, key: &str) -> &'a Json {
    json_get(v, key).expect("field present")
}

fn s(text: &str) -> Json {
    Json::Str(text.to_string())
}

fn function_name(tool: &Json) -> &Json {
    field(field(tool, "function"), "name")
}

#[test]
fn escapes_quotes_and_newlines() {
    let v = user_message("say \"hi\"\nplease");
    assert_eq!(field(&v, "role"), &s("user"));
    assert_eq!(field(&v, "content"), &s("say \"hi\"\nplease"));
}

#[test]
fn tool_response_shape() {
    let response = Json::Object(vec![("utc".to_string(), s("2026-01-01T00:00:00Z"))]);
    let v = tool_response_message("get_current_time", response, None);
    assert_eq!(field(&v, "role"), &s("tool"));
    match field(&v, "content") {
        Json::Array(blocks) => assert_eq!(field(&blocks[0], "name"), &s("get_current_time")),
        other => panic!("expected an array, got {other:?}"),
    }
    assert!(json_get(&v, "tool_call_id").is_none());
}

#[test]
fn tool_response_carries_call_id() {
    let v = tool_response_message("note_read", Json::Null, Some("call-7"));
    assert_eq!(field(&v, "tool_call_id"), &s("call-7"));
    match field(&v, "content") {
        Json::Array(blocks) => assert_eq!(field(&blocks[0], "response"), &Json::Null),
        other => panic!("expected an array, got {other:?}"),
    }
}

#[test]
fn schemas_are_valid_json_array() {
    let arr = default_tools();
    assert_eq!(arr.len(), 10);
    assert_eq!(function_name(&arr[0]), &s("get_current_time"));
    assert_eq!(function_name(&arr[4]), &s("fs_list"));
    assert_eq!(function_name(&arr[7]), &s("web_search"));
}

#[test]
fn declarations_require_the_note_arguments() {
    let arr = default_tools();
    let required = |i: usize| json_get(field(field(&arr[i], "function"), "parameters"), "required");
    assert_eq!(required(1), Some(&Json::Array(vec![s("key"), s("text")])));
    assert_eq!(required(2), Some(&Json::Array(vec![s("key")])));
    assert_eq!(required(5), Some(&Json::Array(vec![s("from"), s("to")])));
    assert_eq!(required(0), None);
    for tool in &arr {
        assert_eq!(field(tool, "type"), &s("function"));
    }
}
