use loco::memory::compile::{compile, CompilerConfig, TopicSwitch};
use loco::memory::session::SessionMemory;
use loco::memory::summary::simple_summary;
use loco::memory::turn::Turn;

fn bits(v: &[f32]) -> Vec<u32> {
    v.iter().map(|x| x.to_bits()).collect()
}

#[test]
fn turn_stores_text() {
    let t = Turn::new("hi", "hello");
    assert_eq!(t.user, "hi");
    assert_eq!(t.assistant, "hello");
    assert!(!t.at.is_empty());
}

#[test]
fn turn_at_secs_is_rfc3339_utc() {
    let t = Turn::at_secs("u", "a", 1_700_000_000);
    assert_eq!(t.at, "2023-11-14T22:13:20Z");
    assert_eq!(Turn::at_secs("u", "a", 0).at, "1970-01-01T00:00:00Z");
}

#[test]
fn new_turn_is_stamped_in_utc() {
    let t = Turn::new("hi", "hello");
    assert_eq!(t.at.len(), 20);
    assert!(t.at.ends_with('Z'));
    assert_eq!(&t.at[10..11], "T");
}

#[test]
fn empty_turns_yield_empty_summary() {
    assert!(simple_summary(&[], 4, 40).is_empty());
}

#[test]
fn keeps_only_recent_turns_and_truncates() {
    let turns: Vec<_> = (0..5)
        .map(|i| {
            Turn::new(
                &format!("user-{i}-{}", "x".repeat(80)),
                &format!("asst-{i}"),
            )
        })
        .collect();
    let s = simple_summary(&turns, 2, 10);
    assert!(s.contains("4."));
    assert!(s.contains("5."));
    assert!(!s.contains("1."));
    assert!(s.contains('…'));
}

#[test]
fn summary_exact_format() {
    let turns = vec![Turn::at_secs("hello", "hi there", 1), Turn::at_secs("abcdef", "x", 2)];
    assert_eq!(
        simple_summary(&turns, 8, 3),
        "1. user: hel…\n   assistant: hi …\n2. user: abc…\n   assistant: x"
    );
}

#[test]
fn append_updates_recent_and_summary() {
    let mut mem = SessionMemory::new(2);
    mem.append("one", "a1");
    mem.append("two", "a2");
    mem.append("three", "a3");
    assert_eq!(mem.turns.len(), 3);
    assert_eq!(mem.recent().len(), 2);
    assert_eq!(mem.recent()[0].user, "two");
    assert!(mem.summary.contains("two"));
    assert!(!mem.summary.contains("one"));
    assert!(mem.system_preamble().unwrap().contains("loco-bot"));
}

#[test]
fn open_chunk_and_return() {
    let mut mem = SessionMemory::new(4);
    let i0 = mem.open_chunk("subway", bits(&[1.0, 0.0]));
    mem.append("u1", "a1");
    assert_eq!(mem.chunks[i0].turn_end, 1);
    let i1 = mem.open_chunk("cooking", bits(&[0.0, 1.0]));
    assert_eq!(mem.current_chunk, Some(i1));
    assert!(mem.return_to_chunk(i0));
    assert_eq!(mem.current_chunk, Some(i0));
    assert_eq!(mem.previous_chunk, Some(i1));
    let past = mem.past_chunk_embeddings();
    assert_eq!(past.len(), 1);
    assert_eq!(past[0].0, i1);
    let preamble = mem.system_preamble().unwrap();
    assert!(preamble.contains("Active topic: subway"));
}

#[test]
fn return_to_missing_chunk_is_refused() {
    let mut mem = SessionMemory::new(4);
    mem.open_chunk("a", vec![]);
    assert!(!mem.return_to_chunk(5));
    assert_eq!(mem.current_chunk, Some(0));
    assert_eq!(mem.previous_chunk, None);
}

#[test]
fn clear_resets_everything_but_window() {
    let mut mem = SessionMemory::new(3);
    mem.open_chunk("a", vec![1]);
    mem.append("u", "a");
    mem.clear();
    assert!(mem.turns.is_empty());
    assert!(mem.summary.is_empty());
    assert!(mem.chunks.is_empty());
    assert_eq!(mem.current_chunk, None);
    assert_eq!(mem.recent_n, 3);
    assert!(mem.system_preamble().is_none());
}

#[test]
fn new_window_is_at_least_one() {
    assert_eq!(SessionMemory::new(0).recent_n, 1);
    assert_eq!(SessionMemory::default().recent_n, 8);
}

#[test]
fn repair_after_load_fills_window_and_summary() {
    let mut mem = SessionMemory::new(4);
    mem.turns.push(Turn::at_secs("hi", "yo", 1));
    mem.recent_n = 0;
    mem.repair_after_load();
    assert_eq!(mem.recent_n, 8);
    assert_eq!(mem.summary, "1. user: hi\n   assistant: yo");
}

fn mem_with_two_topics() -> SessionMemory {
    let mut mem = SessionMemory::new(8);
    mem.open_chunk("subway", bits(&[1.0, 0.0]));
    mem.append("地下鉄の話", "都市の動脈");
    mem.append("切符は？", "ICカード");
    mem.open_chunk("cooking", bits(&[0.0, 1.0]));
    mem.append("カレーの作り方", "ルーを炒める");
    mem
}

#[test]
fn continue_is_resident_only() {
    let mem = mem_with_two_topics();
    let ctx = compile(&mem, TopicSwitch::Continue, &CompilerConfig::default());
    assert!(ctx.dynamic.is_none());
    assert_eq!(ctx.resident.active_topic.as_deref(), Some("cooking"));
    assert!(!ctx.resident.state_summary.is_empty());
    assert!(!ctx.resident.recent_turns.is_empty());
    let notes = ctx.render_notes(&CompilerConfig::default()).unwrap();
    assert!(notes.contains("Active topic: cooking"));
    assert!(!notes.contains("Returned topic"));
}

#[test]
fn return_adds_dynamic_chunk_turns() {
    let mem = mem_with_two_topics();
    let ctx = compile(
        &mem,
        TopicSwitch::Return { chunk_index: 0 },
        &CompilerConfig::default(),
    );
    let dyn_chunk = ctx.dynamic.as_ref().expect("dynamic");
    assert_eq!(dyn_chunk.chunk_index, 0);
    assert_eq!(dyn_chunk.summary, "subway");
    assert_eq!(dyn_chunk.turns.len(), 2);
    assert!(dyn_chunk.turns[0].user.contains("地下鉄"));
    let notes = ctx.render_notes(&CompilerConfig::default()).unwrap();
    assert!(notes.contains("Returned topic context [chunk 0]"));
    assert!(notes.contains("ICカード"));
}

#[test]
fn empty_memory_renders_none() {
    let mem = SessionMemory::default();
    let ctx = compile(&mem, TopicSwitch::New, &CompilerConfig::default());
    assert!(ctx.is_empty());
    assert!(ctx.render_notes(&CompilerConfig::default()).is_none());
}

#[test]
fn dynamic_turn_cap_keeps_tail() {
    let mut mem = SessionMemory::new(8);
    mem.open_chunk("long", bits(&[1.0]));
    for i in 0..5 {
        mem.append(&format!("u{i}"), &format!("a{i}"));
    }
    let cfg = CompilerConfig {
        max_dynamic_turns: 2,
        ..CompilerConfig::default()
    };
    let ctx = compile(&mem, TopicSwitch::Return { chunk_index: 0 }, &cfg);
    let turns = ctx.dynamic.unwrap().turns;
    assert_eq!(turns.len(), 2);
    assert_eq!(turns[0].user, "u3");
    assert_eq!(turns[1].user, "u4");
}

#[test]
fn render_notes_exact_text() {
    let mut mem = SessionMemory::new(8);
    mem.open_chunk("subway", vec![]);
    mem.turns.push(Turn::at_secs("q", "a", 1));
    mem.chunks[0].turn_end = 1;
    mem.refresh_summary();
    let cfg = CompilerConfig { recent_turn_window: 0, ..CompilerConfig::default() };
    let ctx = compile(&mem, TopicSwitch::Return { chunk_index: 0 }, &cfg);
    assert_eq!(
        ctx.render_notes(&cfg).unwrap(),
        "You are loco-bot, a local on-device assistant.\n\nActive topic: subway\n\n\
         Session summary (recent):\n1. user: q\n   assistant: a\n\n\
         Returned topic context [chunk 0]: subway\n1. user: q\n   assistant: a"
    );
}
