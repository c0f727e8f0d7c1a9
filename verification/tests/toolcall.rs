use loco::engine::chat::{
    finished_text, is_host_tool, local_tool_response, plan_tool_round, split_at_host_tool,
    ChatError, RoundPlan, ToolsTurnProgress,
};
use loco::engine::json::Json;
use loco::engine::toolcall::{
    ensure_tool_call_id, extract_assistant_text, extract_tool_calls, split_concatenated_json,
    ToolCall, MAX_TOOL_ROUNDS,
};

fn arg<'a>(call: &'a ToolCall, key: &str) -> Option<&'a Json> {
    call.arguments.iter().find(|(k, _)| k == key).map(|(_, v)| v)
}

fn call(name: &str) -> ToolCall {
    ToolCall { name: name.to_string(), arguments: Vec::new(), id: None }
}

#[test]
fn parses_openai_tool_calls() {
    let raw = r#"{"role":"assistant","content":null,"tool_calls":[{"type":"function","function":{"name":"get_current_time","arguments":{}}}]}"#;
    let calls = extract_tool_calls(raw);
    assert_eq!(calls.len(), 1);
    assert_eq!(calls[0].name, "get_current_time");
    assert!(extract_assistant_text(raw).is_empty());
}

#[test]
fn strips_escape_tokens_in_args() {
    let raw = r#"{"tool_calls":[{"type":"function","function":{"name":"note_write","arguments":{"key":"<|\"|>todo<|\"|>","text":"buy milk"}}}]}"#;
    let calls = extract_tool_calls(raw);
    assert_eq!(arg(&calls[0], "key"), Some(&Json::Str("todo".to_string())));
}

#[test]
fn concatenated_json_documents() {
    let raw = r#"{"role":"assistant","tool_calls":[{"type":"function","function":{"name":"a","arguments":{}}}]}{"role":"assistant","tool_calls":[{"type":"function","function":{"name":"b","arguments":{}}}]}"#;
    let calls = extract_tool_calls(raw);
    assert_eq!(calls.len(), 2);
    assert_eq!(calls[0].name, "a");
    assert_eq!(calls[1].name, "b");
}

#[test]
fn ensure_tool_call_id_fills_missing() {
    let mut call = ToolCall { name: "open_url".into(), arguments: Default::default(), id: None };
    ensure_tool_call_id(&mut call, "c-1".to_string());
    assert_eq!(call.id.as_deref(), Some("c-1"));
}

#[test]
fn ensure_tool_call_id_keeps_existing_and_fills_empty() {
    let mut kept = ToolCall { name: "x".into(), arguments: Vec::new(), id: Some("m-7".into()) };
    ensure_tool_call_id(&mut kept, "c-2".to_string());
    assert_eq!(kept.id.as_deref(), Some("m-7"));
    let mut empty = ToolCall { name: "x".into(), arguments: Vec::new(), id: Some(String::new()) };
    ensure_tool_call_id(&mut empty, "c-3".to_string());
    assert_eq!(empty.id.as_deref(), Some("c-3"));
}

#[test]
fn split_keeps_braces_inside_strings_and_escapes() {
    let parts = split_concatenated_json(r#"{"a":"}{"} x {"b":"\"}"}"#);
    assert_eq!(parts, vec![r#"{"a":"}{"}"#.to_string(), r#"{"b":"\"}"}"#.to_string()]);
    assert_eq!(split_concatenated_json("  plain text  "), vec!["plain text".to_string()]);
    assert!(split_concatenated_json("   ").is_empty());
}

#[test]
fn content_blocks_and_ids() {
    let raw = r#"{"content":[{"type":"text","text":"Hi "},{"type":"tool_call","tool_call":{"name":"note_read","arguments":"{\"key\":\"k\"}","id":"t1"}},{"type":"text","text":"there"}]}"#;
    let calls = extract_tool_calls(raw);
    assert_eq!(calls.len(), 1);
    assert_eq!(calls[0].name, "note_read");
    assert_eq!(calls[0].id.as_deref(), Some("t1"));
    assert_eq!(arg(&calls[0], "key"), Some(&Json::Str("k".to_string())));
    assert_eq!(extract_assistant_text(raw), "Hi there");
}

#[test]
fn outer_id_wins_and_function_must_be_object() {
    let raw = r#"{"tool_calls":[{"id":"outer","type":"function","function":{"name":"a","id":"inner"}},{"type":"function","function":"a"}]}"#;
    let calls = extract_tool_calls(raw);
    assert_eq!(calls.len(), 1);
    assert_eq!(calls[0].id.as_deref(), Some("outer"));
    assert!(calls[0].arguments.is_empty());
}

#[test]
fn raw_token_calls_are_harvested() {
    let raw = "<|tool_call>call:note_write{key:<|\"|>todo<|\"|>,text:<|\"|>buy milk<|\"|>}<tool_call|>";
    let calls = extract_tool_calls(raw);
    assert_eq!(calls.len(), 1);
    assert_eq!(calls[0].name, "note_write");
    assert_eq!(calls[0].id, None);
    assert_eq!(arg(&calls[0], "key"), Some(&Json::Str("todo".to_string())));
    assert_eq!(arg(&calls[0], "text"), Some(&Json::Str("buy milk".to_string())));
}

#[test]
fn raw_token_call_without_close_and_repeated_key() {
    let raw = "text <|tool_call>call: get_current_time {}<|tool_call>{a:<|\"|>1<|\"|>}<|tool_call>f{k:<|\"|>1<|\"|>,k:<|\"|>2<|\"|>";
    let calls = extract_tool_calls(raw);
    assert_eq!(calls.len(), 1);
    assert_eq!(calls[0].name, "get_current_time");
    let raw2 = "<|tool_call>f{k:<|\"|>1<|\"|>,k:<|\"|>2<|\"|>";
    let calls2 = extract_tool_calls(raw2);
    assert_eq!(calls2.len(), 1);
    assert_eq!(calls2[0].arguments.len(), 1);
    assert_eq!(arg(&calls2[0], "k"), Some(&Json::Str("2".to_string())));
}

#[test]
fn assistant_text_falls_back_to_raw() {
    assert_eq!(extract_assistant_text("hello there"), "hello there");
    assert_eq!(extract_assistant_text("  {not json"), "");
    assert_eq!(extract_assistant_text(r#"{"content":"Hi"}"#), "Hi");
}

#[test]
fn round_plan_finishes_limits_and_pauses_on_host() {
    let names = vec!["open_url".to_string()];
    assert_eq!(plan_tool_round(Vec::new(), 0, &names), Ok(RoundPlan::Finish));
    assert_eq!(
        plan_tool_round(vec![call("a")], MAX_TOOL_ROUNDS, &names),
        Err(ChatError::ToolLoopExceeded(4))
    );
    let plan = plan_tool_round(vec![call("a"), call("open_url"), call("b")], 1, &names).unwrap();
    match plan {
        RoundPlan::Run { local, host, rounds_used } => {
            assert_eq!(rounds_used, 2);
            assert_eq!(local.len(), 1);
            assert_eq!(local[0].name, "a");
            let (h, rest) = host.unwrap();
            assert_eq!(h.name, "open_url");
            assert_eq!(rest.len(), 1);
            assert_eq!(rest[0].name, "b");
        }
        RoundPlan::Finish => panic!("expected a run"),
    }
    let (local, host) = split_at_host_tool(vec![call("a"), call("b")], &names);
    assert_eq!(local.len(), 2);
    assert!(host.is_none());
    assert!(is_host_tool(&names, "open_url"));
    assert!(!is_host_tool(&names, "a"));
}

#[test]
fn tool_loop_error_message() {
    assert_eq!(ChatError::ToolLoopExceeded(4).message(), "tool loop exceeded 4 rounds");
    assert_eq!(ChatError::ModelMissing("/m".into()).message(), "model file not found: /m");
}

#[test]
fn local_responses() {
    let denied = local_tool_response("web_search", false, Ok(Json::Null));
    assert_eq!(
        denied,
        Json::Object(vec![
            ("error".to_string(), Json::Str("tool denied by consent policy".to_string())),
            ("tool".to_string(), Json::Str("web_search".to_string())),
        ])
    );
    let failed = local_tool_response("x", true, Err("boom".to_string()));
    assert_eq!(failed, Json::Object(vec![("error".to_string(), Json::Str("boom".to_string()))]));
    assert_eq!(local_tool_response("x", true, Ok(Json::Bool(true))), Json::Bool(true));
}

#[test]
fn finished_text_refuses_a_pause() {
    assert_eq!(finished_text(ToolsTurnProgress::Done("hi".into())), Ok("hi".to_string()));
    let paused = ToolsTurnProgress::NeedHostTool { call: call("open_url"), queued: Vec::new(), rounds_used: 1 };
    let err = finished_text(paused).unwrap_err();
    assert_eq!(err, ChatError::LiteRt("unexpected host tool pause for open_url".into()));
    assert_eq!(err.message(), "liteRT-LM error: unexpected host tool pause for open_url");
}
