use loco::engine::json::{json_get, Json};
use loco::engine::tools::{
    empty_stats, note_insert, note_lookup, note_read_response, note_write_response, notes_from_text,
    stats_of_document, time_response, ToolHost,
};

fn field<'a>(v: &'a Json, key: &str) -> &'a Json {
    json_get(v, key).expect("field present")
}

fn text(v: &Json) -> &str {
    match v {
        Json::Str(s) => s.as_str(),
        other => panic!("expected a string, got {other:?}"),
    }
}

fn number(v: &Json) -> &str {
    match v {
        Json::Number(n) => n.as_str(),
        other => panic!("expected a number, got {other:?}"),
    }
}

#[test]
fn time_has_utc_field() {
    let host = ToolHost::new("n.json".to_string(), "m.json".to_string());
    let v = host.get_current_time();
    assert!(text(field(&v, "utc")).ends_with('Z'));
}

#[test]
fn time_response_at_epoch_and_later() {
    let v = time_response(0);
    assert_eq!(text(field(&v, "utc")), "1970-01-01T00:00:00Z");
    assert_eq!(number(field(&v, "unix_secs")), "0");
    let v = time_response(951_782_400 + 3_723);
    assert_eq!(text(field(&v, "utc")), "2000-02-29T01:02:03Z");
    assert_eq!(number(field(&v, "unix_secs")), "951786123");
}

#[test]
fn note_read_found_and_missing() {
    let v = note_read_response("todo", Some("buy milk"));
    assert_eq!(text(field(&v, "key")), "todo");
    assert_eq!(text(field(&v, "text")), "buy milk");
    assert_eq!(field(&v, "found"), &Json::Bool(true));
    let v = note_read_response("todo", None);
    assert_eq!(text(field(&v, "text")), "");
    assert_eq!(field(&v, "found"), &Json::Bool(false));
}

#[test]
fn note_write_counts_utf8_bytes() {
    let v = note_write_response("k", "日本");
    assert_eq!(field(&v, "ok"), &Json::Bool(true));
    assert_eq!(text(field(&v, "key")), "k");
    assert_eq!(number(field(&v, "bytes")), "6");
}

#[test]
fn session_stats_counts_turns_and_chunks() {
    let host = ToolHost::new("n.json".to_string(), "/tmp/mem.json".to_string());
    let v = host.session_stats(Some(r#"{"turns":[1,2,3],"chunks":[{}]}"#));
    assert_eq!(number(field(&v, "turns")), "3");
    assert_eq!(number(field(&v, "chunks")), "1");
    assert_eq!(text(field(&v, "path")), "/tmp/mem.json");
    assert!(json_get(&v, "empty").is_none());
}

#[test]
fn session_stats_without_arrays_reports_zero() {
    let host = ToolHost::new("n.json".to_string(), "m.json".to_string());
    let v = host.session_stats(Some(r#"{"turns":"many"}"#));
    assert_eq!(number(field(&v, "turns")), "0");
    assert_eq!(number(field(&v, "chunks")), "0");
}

#[test]
fn session_stats_reports_parse_error() {
    let host = ToolHost::new("n.json".to_string(), "m.json".to_string());
    let v = host.session_stats(Some("{not json"));
    assert!(!text(field(&v, "error")).is_empty());
    assert!(json_get(&v, "turns").is_none());
    let doc: Result<Json, String> = Err("bad".to_string());
    let v = stats_of_document(&doc, "p");
    assert_eq!(text(field(&v, "error")), "bad");
}

#[test]
fn session_stats_missing_file_is_empty() {
    let host = ToolHost::new("n.json".to_string(), "m.json".to_string());
    let v = host.session_stats(None);
    assert_eq!(v, empty_stats("m.json"));
    assert_eq!(number(field(&v, "turns")), "0");
    assert_eq!(field(&v, "empty"), &Json::Bool(true));
}

#[test]
fn notes_parse_insert_and_look_up() {
    let notes = notes_from_text(r#"{"todo":"buy milk","b":"x"}"#).unwrap();
    assert_eq!(note_lookup(&notes, "todo"), Some("buy milk"));
    assert_eq!(note_lookup(&notes, "none"), None);
    let notes = note_insert(notes, "todo", "buy bread");
    assert_eq!(note_lookup(&notes, "todo"), Some("buy bread"));
    assert_eq!(note_lookup(&notes, "b"), Some("x"));
    assert_eq!(notes.iter().filter(|(k, _)| k == "todo").count(), 1);
    let notes = note_insert(Vec::new(), "k", "v");
    assert_eq!(notes, vec![("k".to_string(), "v".to_string())]);
}

#[test]
fn notes_file_must_hold_strings() {
    assert_eq!(notes_from_text(r#"{"a":1}"#).unwrap_err(), "notes file is not an object of strings");
    assert_eq!(notes_from_text("[]").unwrap_err(), "notes file is not an object of strings");
    assert!(!notes_from_text("{").unwrap_err().is_empty());
    assert_eq!(notes_from_text("{}").unwrap(), Vec::new());
}
