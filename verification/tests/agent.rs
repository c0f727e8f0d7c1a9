use loco::agent::consent::{AllowListedTools, AllowLowRiskOnly, AllowUpTo, ToolConsent, ToolRisk};
use loco::agent::events::{AgentEvent, AgentTurnProgress, ServeServerMessage, TurnOutcome};
use loco::agent::turn::{
    apply_pending_reply, apply_resolve_outcome, clarification_to_pending, is_bare_clarify_reply,
    pending_choices, pending_to_clarification, settle_resolve, turn_context, ResolveApply,
};
use loco::memory::compile::TopicSwitch;
use loco::memory::session::SessionMemory;
use loco::resolve::{build_clarification, ClarifyAction, ResolveOutcome};


#[test]
fn builtin_tools_are_low_risk() {
    assert_eq!(ToolRisk::for_tool("get_current_time"), ToolRisk::Low);
    assert_eq!(ToolRisk::for_tool("web_search"), ToolRisk::High);
}

#[test]
fn allow_low_risk_only_denies_high() {
    let mut gate = AllowLowRiskOnly;
    assert!(gate.allow("note_read", &serde_json::Map::new(), ToolRisk::Low));
    assert!(!gate.allow("web_search", &serde_json::Map::new(), ToolRisk::High));
}

#[test]
fn risk_classes_and_ceilings() {
    assert_eq!(ToolRisk::for_tool("fs_move"), ToolRisk::Medium);
    assert_eq!(ToolRisk::for_tool("unknown_tool"), ToolRisk::High);
    assert_eq!(ToolRisk::Medium.as_str(), "medium");
    assert_eq!(ToolRisk::default(), ToolRisk::Low);
    let mut up = AllowUpTo { max: ToolRisk::Medium };
    assert!(up.allow("fs_list", &serde_json::Map::new(), ToolRisk::Medium));
    assert!(!up.allow("web_search", &serde_json::Map::new(), ToolRisk::High));
    let mut listed = AllowListedTools { names: vec!["note_read".into()] };
    assert!(listed.allow("note_read", &serde_json::Map::new(), ToolRisk::High));
    assert!(!listed.allow("note_write", &serde_json::Map::new(), ToolRisk::Low));
}

fn two_topic_memory() -> SessionMemory {
    let mut mem = SessionMemory::new(8);
    mem.open_chunk("subway", vec![1]);
    mem.append("地下鉄", "ok");
    mem.open_chunk("cooking", vec![2]);
    mem.append("カレー", "ok");
    mem
}

#[test]
fn pending_round_trip_and_choices() {
    let c = build_clarification(&[0, 1], &["subway".to_string(), "cooking".to_string()], true);
    let p = clarification_to_pending(&c);
    assert_eq!(p.candidates[0].return_chunk, None);
    assert_eq!(p.candidates[2].return_chunk, Some(1));
    let back = pending_to_clarification(&p);
    assert_eq!(back, c);
    let mut mem = two_topic_memory();
    mem.set_pending_clarify(p);
    let choices = pending_choices(&mem);
    assert_eq!(choices.len(), 3);
    assert_eq!(choices[2].label, "cooking");
    assert_eq!(choices[2].index, 3);
}

#[test]
fn bare_reply_is_number_or_label() {
    let c = build_clarification(&[0], &["Subway".to_string()], false);
    let p = clarification_to_pending(&c);
    assert!(is_bare_clarify_reply(" 1 ", &p));
    assert!(is_bare_clarify_reply("subway", &p));
    assert!(!is_bare_clarify_reply("subway tickets?", &p));
}

#[test]
fn pending_reply_returns_and_acks() {
    let mut mem = two_topic_memory();
    assert_eq!(apply_pending_reply(&mut mem, "hi"), None);
    let c = build_clarification(&[0], &mem.chunk_labels(), true);
    mem.set_pending_clarify(clarification_to_pending(&c));
    // Unmatched reply asks again and keeps the question.
    assert_eq!(
        apply_pending_reply(&mut mem, "weather"),
        Some(ResolveApply::Clarify(c.question.clone()))
    );
    assert!(mem.pending_clarify.is_some());
    // Bare number: acknowledgement, topic switched, question dropped.
    assert_eq!(
        apply_pending_reply(&mut mem, "2"),
        Some(ResolveApply::Ack("了解です。「subway」に戻ります。続けてどうぞ。".into()))
    );
    assert_eq!(mem.current_chunk, Some(0));
    assert_eq!(mem.previous_chunk, Some(1));
    assert!(mem.pending_clarify.is_none());
}

#[test]
fn pending_reply_with_question_switches() {
    let mut mem = two_topic_memory();
    let c = build_clarification(&[0], &mem.chunk_labels(), true);
    mem.set_pending_clarify(clarification_to_pending(&c));
    assert_eq!(
        apply_pending_reply(&mut mem, "subway の切符は？"),
        Some(ResolveApply::Switch(TopicSwitch::Return { chunk_index: 0 }))
    );
}

#[test]
fn resolve_outcome_updates_memory() {
    let mut mem = two_topic_memory();
    let long_user: String = "あ".repeat(100);
    let r = apply_resolve_outcome(&mut mem, ResolveOutcome::New, &long_user, vec![7, 8]);
    assert_eq!(r, ResolveApply::Switch(TopicSwitch::New));
    assert_eq!(mem.chunks.len(), 3);
    assert_eq!(mem.chunks[2].summary.chars().count(), 80);
    assert_eq!(mem.chunks[2].embedding, vec![7, 8]);
    assert_eq!(mem.chunks[2].id, 2);
    assert_eq!(mem.current_chunk, Some(2));
    let r = apply_resolve_outcome(&mut mem, ResolveOutcome::Return { chunk_index: 0 }, "x", vec![]);
    assert_eq!(r, ResolveApply::Switch(TopicSwitch::Return { chunk_index: 0 }));
    assert_eq!(mem.current_chunk, Some(0));
    let c = build_clarification(&[1, 2], &mem.chunk_labels(), false);
    let q = c.question.clone();
    let r = apply_resolve_outcome(&mut mem, ResolveOutcome::NeedsClarification(c), "x", vec![]);
    assert_eq!(r, ResolveApply::Clarify(q));
    assert!(mem.pending_clarify.is_some());
    let r = apply_resolve_outcome(&mut mem, ResolveOutcome::Continue, "x", vec![]);
    assert_eq!(r, ResolveApply::Switch(TopicSwitch::Continue));
}

#[test]
fn settle_and_context_events() {
    let mem = two_topic_memory();
    let out = settle_resolve(&mem, ResolveApply::Switch(TopicSwitch::Return { chunk_index: 0 }), vec![]);
    let (sw, mut events) = out.unwrap();
    assert_eq!(sw, TopicSwitch::Return { chunk_index: 0 });
    assert_eq!(
        events[0],
        AgentEvent::Topic { kind: "return".into(), chunk_index: Some(0) }
    );
    let notes = turn_context(&mem, sw, false, &mut events).unwrap();
    assert!(notes.contains("Returned topic context [chunk 0]"));
    assert_eq!(
        events[1],
        AgentEvent::Context { chars: notes.len(), has_dynamic: true }
    );
    let mut none_events = vec![];
    assert!(turn_context(&mem, TopicSwitch::Continue, true, &mut none_events).is_none());
    assert!(none_events.is_empty());
    match settle_resolve(&mem, ResolveApply::Ack("ok".into()), vec![]) {
        Err(outcome) => {
            assert_eq!(outcome.reply_text, "ok");
            assert_eq!(outcome.events.len(), 2);
            assert_eq!(outcome.events[1], AgentEvent::Done { text: "ok".into() });
        }
        Ok(_) => panic!("ack ends the turn"),
    }
}

#[test]
fn progress_becomes_serve_message() {
    let outcome = TurnOutcome { events: vec![], reply_text: "hi".into() };
    let msg = AgentTurnProgress::AwaitingHostTool { call_id: "c1".into(), outcome }
        .into_serve_message();
    match msg {
        ServeServerMessage::AwaitingTool { call_id, outcome } => {
            assert_eq!(call_id, "c1");
            assert_eq!(outcome.reply_text, "hi");
        }
        other => panic!("unexpected {other:?}"),
    }
    let _ = ClarifyAction::ContinueCurrent;
}
