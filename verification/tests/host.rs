use loco::engine::chat::ChatError;
use loco::embed::{cls_pooling, mean_pooling, pick_input_name, pick_output_index, Pooling};
use loco::agent::serve::host_tool_table;
use loco::agent::consent::ToolRisk;
use loco::agent::launch::{consent_ceiling, model_launch_error};
use loco::engine::catalog::ModelId;
use loco::engine::status::ModelStatus;
use loco::agent::events::event_log_line;
use loco::text::truncate;
use loco::agent::events::{AgentError, AgentEvent, ToolExecKind};
use loco::agent::host::{
    accept_host_result, host_tool_request, host_tool_response, push_local_tool_events, resume_pending,
    HostResume, PendingHostTool,
};
use loco::agent::serve::{
    declared_risk, default_host_exec, default_risk, merge_tools, merge_tools_text, HostToolSpec,
};
use loco::embed::EmbedError;
use loco::engine::install::InstallError;
use loco::engine::json::Json;
use loco::engine::paths::CacheLayout;
use loco::engine::toolcall::ToolCall;
use loco::engine::tools::{arg_str, BuiltinTool, ToolError, ToolHost};

fn to_json(v: &serde_json::Value) -> Json {
    match v {
        serde_json::Value::Null => Json::Null,
        serde_json::Value::Bool(b) => Json::Bool(*b),
        serde_json::Value::Number(n) => Json::Number(n.to_string()),
        serde_json::Value::String(s) => Json::Str(s.clone()),
        serde_json::Value::Array(a) => Json::Array(a.iter().map(to_json).collect()),
        serde_json::Value::Object(m) => {
            Json::Object(m.iter().map(|(k, v)| (k.clone(), to_json(v))).collect())
        }
    }
}

fn tool_name(t: &Json) -> Option<String> {
    if let Json::Object(o) = t {
        for (k, v) in o {
            if k == "function" {
                if let Json::Object(f) = v {
                    for (fk, fv) in f {
                        if fk == "name" {
                            if let Json::Str(s) = fv {
                                return Some(s.clone());
                            }
                        }
                    }
                }
            }
        }
    }
    None
}

fn open_url_spec() -> HostToolSpec {
    let params: serde_json::Value = serde_json::from_str(
        r#"{"type":"object","properties":{"url":{"type":"string"}},"required":["url"]}"#,
    )
    .unwrap();
    HostToolSpec {
        name: "open_url".into(),
        description: "Open a URL".into(),
        parameters: to_json(&params),
        risk: "medium".into(),
        exec_kind: ToolExecKind::Host,
    }
}

#[test]
fn merge_tools_appends_host_and_dedupes_name() {
    let defaults = r#"[{"type":"function","function":{"name":"get_current_time","description":"t","parameters":{}}},{"type":"function","function":{"name":"open_url","description":"old","parameters":{}}}]"#;
    let merged = merge_tools_text(defaults, &[open_url_spec()]).unwrap();
    let names: Vec<String> = merged.iter().filter_map(tool_name).collect();
    assert_eq!(names, vec!["get_current_time", "open_url"]);
    let last = format!("{:?}", merged[1]);
    assert!(last.contains("Open a URL"));
    let arr: Vec<serde_json::Value> = serde_json::from_str(defaults).unwrap();
    let parsed: Vec<Json> = arr.iter().map(to_json).collect();
    assert_eq!(merged, merge_tools(&parsed, &[open_url_spec()]));
}

#[test]
fn merge_tools_text_refuses_non_arrays() {
    assert_eq!(merge_tools_text("{}", &[]).unwrap_err(), "tools JSON is not an array");
    assert!(!merge_tools_text("[", &[]).unwrap_err().is_empty());
    assert_eq!(merge_tools_text("[]", &[open_url_spec()]).unwrap().len(), 1);
}

#[test]
fn host_defaults() {
    assert_eq!(default_risk(), "medium");
    assert_eq!(default_host_exec(), ToolExecKind::Host);
}

#[test]
fn host_request_fills_id_and_announces() {
    let call = ToolCall { name: "open_url".into(), arguments: Vec::new(), id: None };
    let req = host_tool_request(call, 3, None, Vec::new());
    assert_eq!(req.call_id, "host-3");
    assert_eq!(req.call.id.as_deref(), Some("host-3"));
    assert_eq!(req.events.len(), 1);
    match &req.events[0] {
        AgentEvent::ToolRequest { name, risk, call_id, .. } => {
            assert_eq!(name, "open_url");
            assert_eq!(risk, "high");
            assert_eq!(call_id.as_deref(), Some("host-3"));
        }
        other => panic!("unexpected {other:?}"),
    }
    let call2 = ToolCall { name: "open_url".into(), arguments: Vec::new(), id: Some("m1".into()) };
    let req2 = host_tool_request(call2, 4, Some("medium".into()), Vec::new());
    assert_eq!(req2.call_id, "m1");
    match &req2.events[0] {
        AgentEvent::ToolRequest { risk, .. } => assert_eq!(risk, "medium"),
        other => panic!("unexpected {other:?}"),
    }
}

#[test]
fn host_result_checks_call_id() {
    let call = ToolCall { name: "open_url".into(), arguments: Vec::new(), id: Some("c1".into()) };
    let err = accept_host_result(&call, "c2", true, Vec::new()).unwrap_err();
    assert_eq!(err, AgentError::Anyhow("call_id mismatch: expected c1, got c2".into()));
    assert_eq!(err.message(), "call_id mismatch: expected c1, got c2");
    let events = accept_host_result(&call, "c1", false, Vec::new()).unwrap();
    assert_eq!(
        events,
        vec![AgentEvent::ToolResult { name: "open_url".into(), ok: false, call_id: Some("c1".into()) }]
    );
}

#[test]
fn host_response_wraps_failures() {
    assert_eq!(host_tool_response("t", true, Json::Bool(true)), Json::Bool(true));
    assert_eq!(
        host_tool_response("t", false, Json::Null),
        Json::Object(vec![
            ("error".into(), Json::Str("tool denied or failed on host".into())),
            ("tool".into(), Json::Str("t".into())),
            ("detail".into(), Json::Null),
        ])
    );
}

#[test]
fn error_messages() {
    assert_eq!(EmbedError::BadShape.message(), "unexpected output shape");
    assert_eq!(EmbedError::MissingInput("ids".into()).message(), "missing model input `ids`");
    assert_eq!(InstallError::SourceMissing("/x".into()).message(), "source file not found: /x");
    assert_eq!(ToolError::Unknown("zap".into()).message(), "unknown tool `zap`");
    assert_eq!(ToolError::MissingArg("key".into()).message(), "missing argument `key`");
}

#[test]
fn builtin_names_and_arguments() {
    assert_eq!(BuiltinTool::from_name("note_read"), Ok(BuiltinTool::NoteRead));
    assert_eq!(BuiltinTool::from_name("zap"), Err(ToolError::Unknown("zap".into())));
    let args = vec![("key".to_string(), Json::Str("todo".into())), ("n".to_string(), Json::Null)];
    assert_eq!(arg_str(&args, "key"), Ok("todo"));
    assert_eq!(arg_str(&args, "n"), Err(ToolError::MissingArg("n".into())));
    assert_eq!(arg_str(&args, "text"), Err(ToolError::MissingArg("text".into())));
    let host = ToolHost::new("/c/notes/notes.json".into(), "/c/memory/session.json".into());
    assert_eq!(host.notes_path(), "/c/notes/notes.json");
    assert_eq!(host.memory_path(), "/c/memory/session.json");
}

#[test]
fn layout_memory_and_notes_paths() {
    let layout = CacheLayout::new("/tmp/loco");
    assert_eq!(layout.memory_path(), "/tmp/loco/memory/session.json");
    assert_eq!(layout.notes_path(), "/tmp/loco/notes/notes.json");
}

#[test]
fn launch_checks() {
    assert_eq!(consent_ceiling(true), ToolRisk::Medium);
    assert_eq!(consent_ceiling(false), ToolRisk::Low);
    let ok = ModelStatus::Present { path: "/m".into(), bytes: 3 };
    assert_eq!(model_launch_error(ModelId::Gemma4E4b, &ok), None);
    let missing = ModelStatus::Missing { expected: "/m".into() };
    assert_eq!(
        model_launch_error(ModelId::Gemma4E4b, &missing).as_deref(),
        Some("model not ready at /m. Run: loco download gemma4-e4b")
    );
    let empty = ModelStatus::Present { path: "/m".into(), bytes: 0 };
    assert_eq!(model_launch_error(ModelId::Gemma4E4b, &empty).as_deref(), Some("model file is empty: /m"));
}

#[test]
fn event_log_lines() {
    assert_eq!(
        event_log_line(&AgentEvent::Topic { kind: "return".into(), chunk_index: Some(2) }).as_deref(),
        Some("[topic: return #2]")
    );
    assert_eq!(
        event_log_line(&AgentEvent::Topic { kind: "new".into(), chunk_index: None }).as_deref(),
        Some("[topic: new]")
    );
    assert_eq!(
        event_log_line(&AgentEvent::Context { chars: 120, has_dynamic: true }).as_deref(),
        Some("[context: resident+dynamic 120 chars]")
    );
    assert_eq!(
        event_log_line(&AgentEvent::Context { chars: 7, has_dynamic: false }).as_deref(),
        Some("[context: resident 7 chars]")
    );
    assert_eq!(
        event_log_line(&AgentEvent::ToolResult { name: "x".into(), ok: false, call_id: None }).as_deref(),
        Some("[tool result: x ok=false]")
    );
    assert_eq!(event_log_line(&AgentEvent::Done { text: "hi".into() }), None);
}

#[test]
fn truncate_marks_cut_text() {
    assert_eq!(truncate("abcdef", 3), "abc…");
    assert_eq!(truncate("abc", 3), "abc");
}

#[test]
fn host_table_keeps_last_spec_per_name() {
    let mut a = open_url_spec();
    a.description = "first".into();
    let mut b = open_url_spec();
    b.name = "take_photo".into();
    let c = open_url_spec();
    let table = host_tool_table(vec![a, b, c]);
    assert_eq!(table.len(), 2);
    assert_eq!(table[0].name, "open_url");
    assert_eq!(table[0].description, "Open a URL");
    assert_eq!(table[1].name, "take_photo");
}

#[test]
fn every_error_variant_has_its_message() {
    assert_eq!(ChatError::LiteRt("x".into()).message(), "liteRT-LM error: x");
    assert_eq!(ChatError::Io("disk".into()).message(), "io error: disk");
    assert_eq!(EmbedError::Tokenizer("t".into()).message(), "tokenizer: t");
    assert_eq!(EmbedError::Onnx("o".into()).message(), "onnx: o");
    assert_eq!(EmbedError::Io("i".into()).message(), "io: i");
    assert_eq!(InstallError::Io("i".into()).message(), "io error: i");
    assert_eq!(ToolError::Io("i".into()).message(), "io: i");
    assert_eq!(ToolError::Json("j".into()).message(), "json: j");
    assert_eq!(AgentError::Chat(ChatError::ToolLoopExceeded(4)).message(), "tool loop exceeded 4 rounds");
}

#[test]
fn embed_input_output_and_pooling_choices() {
    let names = vec!["Input_IDs".to_string(), "attention_mask".to_string()];
    assert_eq!(pick_input_name(&names, &["input_ids"]), Ok("Input_IDs".to_string()));
    assert_eq!(pick_input_name(&names, &["attention_mask"]), Ok("attention_mask".to_string()));
    let odd = vec!["a".to_string(), "b".to_string()];
    assert_eq!(pick_input_name(&odd, &["input_ids"]), Ok("a".to_string()));
    assert_eq!(pick_input_name(&odd, &["attention_mask"]), Ok("b".to_string()));
    assert_eq!(pick_input_name(&[], &["attention_mask"]), Err(EmbedError::MissingInput("attention_mask".into())));
    let outs = vec!["pooler".to_string(), "Last_Hidden_State".to_string()];
    assert_eq!(pick_output_index(&outs), Some(1));
    assert_eq!(pick_output_index(&["x".to_string()]), Some(0));
    assert_eq!(pick_output_index(&[]), None);
    assert_eq!(mean_pooling(&[1, 7, 384]), Ok(Pooling::Mean { seq: 7, hidden: 384 }));
    assert_eq!(mean_pooling(&[384]), Ok(Pooling::Head));
    assert_eq!(mean_pooling(&[1, 7, 128]), Err(EmbedError::BadShape));
    assert_eq!(cls_pooling(&[2, 7, 384]), Ok(Pooling::Head));
    assert_eq!(cls_pooling(&[0, 7, 384]), Err(EmbedError::BadShape));
}

#[test]
fn declared_risk_looks_up_host_tools() {
    let mut high = open_url_spec();
    high.name = "delete_all".into();
    high.risk = "high".into();
    let table = vec![open_url_spec(), high];
    assert_eq!(declared_risk(&table, "open_url"), Some("medium".to_string()));
    assert_eq!(declared_risk(&table, "delete_all"), Some("high".to_string()));
    assert_eq!(declared_risk(&table, "get_current_time"), None);
}

fn paused(id: Option<&str>) -> PendingHostTool {
    PendingHostTool {
        call: ToolCall { name: "open_url".into(), arguments: Vec::new(), id: id.map(|s| s.to_string()) },
        queued: vec![ToolCall { name: "note_read".into(), arguments: Vec::new(), id: None }],
        rounds_used: 2,
        events: vec![AgentEvent::Done { text: "before".into() }],
        memory_user: "open it".into(),
    }
}

#[test]
fn wrong_call_id_keeps_the_call_pending() {
    match resume_pending(paused(Some("c1")), "c9", true, Json::Null) {
        HostResume::Mismatch { pending, error } => {
            assert_eq!(pending.call.id.as_deref(), Some("c1"));
            assert_eq!(pending.events.len(), 1);
            assert_eq!(pending.rounds_used, 2);
            assert_eq!(error.message(), "call_id mismatch: expected c1, got c9");
        }
        HostResume::Resume { .. } => panic!("a wrong id must not resume"),
    }
}

#[test]
fn matching_call_id_resumes() {
    match resume_pending(paused(Some("c1")), "c1", false, Json::Str("nope".into())) {
        HostResume::Resume { call, queued, rounds_used, events, memory_user, response } => {
            assert_eq!(call.name, "open_url");
            assert_eq!(queued.len(), 1);
            assert_eq!(rounds_used, 2);
            assert_eq!(memory_user, "open it");
            assert_eq!(
                events.last(),
                Some(&AgentEvent::ToolResult { name: "open_url".into(), ok: false, call_id: Some("c1".into()) })
            );
            assert_eq!(response, host_tool_response("open_url", false, Json::Str("nope".into())));
        }
        HostResume::Mismatch { .. } => panic!("the id matches"),
    }
}

#[test]
fn local_tool_events_pair() {
    let mut events = Vec::new();
    push_local_tool_events(&mut events, "note_read", &[], false);
    assert_eq!(events.len(), 2);
    match &events[0] {
        AgentEvent::ToolRequest { name, risk, call_id, .. } => {
            assert_eq!(name, "note_read");
            assert_eq!(risk, "low");
            assert!(call_id.is_none());
        }
        other => panic!("unexpected {other:?}"),
    }
    assert_eq!(events[1], AgentEvent::ToolResult { name: "note_read".into(), ok: false, call_id: None });
}
