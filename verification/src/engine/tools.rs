//! Built-in tools (clock, notes, session stats): their names, arguments,
//! errors and the JSON each answers with. Reading and writing the notes and
//! memory files is left to the host.
use vstd::prelude::*;

use crate::engine::civil::{is_utc_text_of, utc_timestamp};
use crate::engine::json::{
    entries_get, entries_view, entry_get, json_as_str, json_get, json_get_spec, json_parse,
    json_str, lemma_object_view, parse_json, result_view, Json, JsonV,
};
use crate::memory::turn::unix_now_secs;
use crate::text::{concat2, concat3, decimal, decimal_string, str_eq};

verus! {

/// Why a built-in tool failed.
#[derive(Debug, PartialEq, Eq)]
pub enum ToolError {
    Unknown(String),
    MissingArg(String),
    Io(String),
    Json(String),
}

impl ToolError {
    pub open spec fn message_spec(&self) -> Seq<char> {
        match self {
            ToolError::Unknown(n) => "unknown tool `"@ + n@ + "`"@,
            ToolError::MissingArg(k) => "missing argument `"@ + k@ + "`"@,
            ToolError::Io(m) => "io: "@ + m@,
            ToolError::Json(m) => "json: "@ + m@,
        }
    }

    /// The error text shown to the user.
    pub fn message(&self) -> (r: String)
        ensures
            r@ == self.message_spec(),
    {
        match self {
            ToolError::Unknown(n) => concat3("unknown tool `", n.as_str(), "`"),
            ToolError::MissingArg(k) => concat3("missing argument `", k.as_str(), "`"),
            ToolError::Io(m) => concat2("io: ", m.as_str()),
            ToolError::Json(m) => concat2("json: ", m.as_str()),
        }
    }
}

/// The built-in tools.
#[derive(Debug, Clone, Copy, PartialEq, Eq, Structural)]
pub enum BuiltinTool {
    GetCurrentTime,
    NoteWrite,
    NoteRead,
    SessionStats,
}

impl BuiltinTool {
    pub open spec fn from_name_spec(name: Seq<char>) -> Option<BuiltinTool> {
        if name == "get_current_time"@ {
            Some(BuiltinTool::GetCurrentTime)
        } else if name == "note_write"@ {
            Some(BuiltinTool::NoteWrite)
        } else if name == "note_read"@ {
            Some(BuiltinTool::NoteRead)
        } else if name == "session_stats"@ {
            Some(BuiltinTool::SessionStats)
        } else {
            None
        }
    }

    /// The built-in tool of a name; unknown names are an error.
    pub fn from_name(name: &str) -> (r: Result<BuiltinTool, ToolError>)
        ensures
            match BuiltinTool::from_name_spec(name@) {
                Some(t) => r == Ok::<BuiltinTool, ToolError>(t),
                None => r matches Err(ToolError::Unknown(n)) && n@ == name@,
            },
    {
        if str_eq(name, "get_current_time") {
            Ok(BuiltinTool::GetCurrentTime)
        } else if str_eq(name, "note_write") {
            Ok(BuiltinTool::NoteWrite)
        } else if str_eq(name, "note_read") {
            Ok(BuiltinTool::NoteRead)
        } else if str_eq(name, "session_stats") {
            Ok(BuiltinTool::SessionStats)
        } else {
            Err(ToolError::Unknown(name.to_string()))
        }
    }
}

/// A string argument of a call.
pub fn arg_str<'a>(args: &'a [(String, Json)], key: &str) -> (r: Result<&'a str, ToolError>)
    ensures
        match json_str(entry_get(entries_view(args@), key@)) {
            Some(s) => r matches Ok(v) && v@ == s,
            None => r matches Err(ToolError::MissingArg(k)) && k@ == key@,
        },
{
    match json_as_str(entries_get(args, key)) {
        Some(s) => Ok(s),
        None => Err(ToolError::MissingArg(key.to_string())),
    }
}

/// Executes built-in tools against files under the loco cache.
#[derive(Debug, Clone)]
pub struct ToolHost {
    notes_path: String,
    memory_path: String,
}

impl ToolHost {
    pub closed spec fn notes_path_spec(&self) -> Seq<char> {
        self.notes_path@
    }

    pub closed spec fn memory_path_spec(&self) -> Seq<char> {
        self.memory_path@
    }

    pub fn new(notes_path: String, memory_path: String) -> (h: ToolHost)
        ensures
            h.notes_path_spec() == notes_path@,
            h.memory_path_spec() == memory_path@,
    {
        ToolHost { notes_path, memory_path }
    }

    /// Where the notes are kept.
    pub fn notes_path(&self) -> (r: &str)
        ensures
            r@ == self.notes_path_spec(),
    {
        self.notes_path.as_str()
    }

    /// Where the session memory is kept.
    pub fn memory_path(&self) -> (r: &str)
        ensures
            r@ == self.memory_path_spec(),
    {
        self.memory_path.as_str()
    }

    /// The clock tool: the current time.
    pub fn get_current_time(&self) -> (r: Json)
        ensures
            exists|secs: u64| #[trigger] is_time_response(secs, r@),
    {
        let secs = unix_now_secs();
        time_response(secs)
    }

    /// The `session_stats` tool, given the text of the memory file (`None`
    /// when it could not be read).
    pub fn session_stats(&self, memory_file: Option<&str>) -> (r: Json)
        ensures
            r@ == match memory_file {
                Some(t) => stats_spec(json_parse(t@), self.memory_path_spec()),
                None => empty_stats_spec(self.memory_path_spec()),
            },
    {
        match memory_file {
            Some(t) => {
                let doc = parse_json(t);
                stats_of_document(&doc, self.memory_path.as_str())
            },
            None => empty_stats(self.memory_path.as_str()),
        }
    }
}

/// An object built from its entries, keys first.
fn object(entries: Vec<(String, Json)>) -> (r: Json)
    ensures
        r@ == JsonV::Object(entries_view(entries@)),
{
    proof {
        lemma_object_view(entries);
    }
    Json::Object(entries)
}

/// The answer of the clock tool for `secs` seconds after the epoch, with
/// `utc` its UTC text.
pub open spec fn time_response_spec(secs: u64, utc: Seq<char>) -> JsonV {
    JsonV::Object(
        seq![("utc"@, JsonV::Str(utc)), ("unix_secs"@, JsonV::Number(decimal(secs as nat)))],
    )
}

/// `v` is the clock tool's answer for `secs`.
pub open spec fn is_time_response(secs: u64, v: JsonV) -> bool {
    exists|utc: Seq<char>| #[trigger] is_utc_text_of(secs, utc) && v == time_response_spec(secs, utc)
}

/// The clock tool's answer for `secs` seconds after the epoch.
pub fn time_response(secs: u64) -> (r: Json)
    ensures
        is_time_response(secs, r@),
{
    let utc = utc_timestamp(secs);
    let ghost u = utc@;
    let mut e: Vec<(String, Json)> = Vec::new();
    e.push(("utc".to_string(), Json::Str(utc)));
    e.push(("unix_secs".to_string(), Json::Number(decimal_string(secs))));
    let r = object(e);
    assert(entries_view(e@) =~= time_response_spec(secs, u)->Object_0);
    assert(is_utc_text_of(secs, u));
    r
}

/// The answer of `note_read` for `key`, with the stored text if any.
pub open spec fn note_read_spec(key: Seq<char>, text: Option<Seq<char>>) -> JsonV {
    JsonV::Object(
        seq![
            ("key"@, JsonV::Str(key)),
            ("text"@, JsonV::Str(
                match text {
                    Some(t) => t,
                    None => Seq::empty(),
                },
            )),
            ("found"@, JsonV::Bool(text is Some)),
        ],
    )
}

/// The answer of `note_read`: the key, the stored text (empty when there is
/// none) and whether it was found.
pub fn note_read_response(key: &str, text: Option<&str>) -> (r: Json)
    ensures
        r@ == note_read_spec(
            key@,
            match text {
                Some(t) => Some(t@),
                None => None,
            },
        ),
{
    let body = match text {
        Some(t) => t.to_string(),
        None => String::new(),
    };
    let mut e: Vec<(String, Json)> = Vec::new();
    e.push(("key".to_string(), Json::Str(key.to_string())));
    e.push(("text".to_string(), Json::Str(body)));
    e.push(("found".to_string(), Json::Bool(text.is_some())));
    let r = object(e);
    assert(entries_view(e@) =~= note_read_spec(
        key@,
        match text {
            Some(t) => Some(t@),
            None => None,
        },
    )->Object_0);
    r
}

/// The answer of `note_write` for `key`, with the stored text's size in
/// UTF-8 bytes.
pub open spec fn note_write_spec(key: Seq<char>, bytes: nat) -> JsonV {
    JsonV::Object(
        seq![
            ("ok"@, JsonV::Bool(true)),
            ("key"@, JsonV::Str(key)),
            ("bytes"@, JsonV::Number(decimal(bytes))),
        ],
    )
}

/// The answer of `note_write` once `text` is stored under `key`; `len` of a
/// `str` counts its UTF-8 bytes.
pub fn note_write_response(key: &str, text: &str) -> (r: Json)
    ensures
        r@ == note_write_spec(key@, text.len() as nat),
{
    let n: usize = text.len();
    let mut e: Vec<(String, Json)> = Vec::new();
    e.push(("ok".to_string(), Json::Bool(true)));
    e.push(("key".to_string(), Json::Str(key.to_string())));
    e.push(("bytes".to_string(), Json::Number(decimal_string(n as u64))));
    let r = object(e);
    assert(entries_view(e@) =~= note_write_spec(key@, text.len() as nat)->Object_0);
    r
}

/// The length of the array under `key`, 0 when there is none.
pub open spec fn array_len_spec(v: JsonV, key: Seq<char>) -> nat {
    match json_get_spec(v, key) {
        Some(JsonV::Array(a)) => a.len(),
        _ => 0,
    }
}

fn array_len_at(v: &Json, key: &str) -> (r: usize)
    ensures
        r == array_len_spec(v@, key@),
{
    match json_get(v, key) {
        Some(Json::Array(a)) => {
            assert(json_get_spec(v@, key@) == Some(Json::Array(*a)@));
            a.len()
        },
        _ => 0,
    }
}

/// What `session_stats` reports of a memory file that parsed to `doc`: the
/// number of turns and chunks and the path, or serde_json's error.
pub open spec fn stats_spec(doc: Result<JsonV, Seq<char>>, path: Seq<char>) -> JsonV {
    match doc {
        Ok(v) => JsonV::Object(
            seq![
                ("turns"@, JsonV::Number(decimal(array_len_spec(v, "turns"@)))),
                ("chunks"@, JsonV::Number(decimal(array_len_spec(v, "chunks"@)))),
                ("path"@, JsonV::Str(path)),
            ],
        ),
        Err(e) => JsonV::Object(seq![("error"@, JsonV::Str(e))]),
    }
}

/// What `session_stats` reports when there is no memory file to read.
pub open spec fn empty_stats_spec(path: Seq<char>) -> JsonV {
    JsonV::Object(
        seq![
            ("turns"@, JsonV::Number(decimal(0))),
            ("chunks"@, JsonV::Number(decimal(0))),
            ("path"@, JsonV::Str(path)),
            ("empty"@, JsonV::Bool(true)),
        ],
    )
}

/// The `session_stats` answer for a parsed memory file.
pub fn stats_of_document(doc: &Result<Json, String>, path: &str) -> (r: Json)
    ensures
        r@ == stats_spec(result_view(*doc), path@),
{
    match doc {
        Ok(v) => {
            let turns = array_len_at(v, "turns");
            let chunks = array_len_at(v, "chunks");
            let mut e: Vec<(String, Json)> = Vec::new();
            e.push(("turns".to_string(), Json::Number(decimal_string(turns as u64))));
            e.push(("chunks".to_string(), Json::Number(decimal_string(chunks as u64))));
            e.push(("path".to_string(), Json::Str(path.to_string())));
            let r = object(e);
            assert(entries_view(e@) =~= stats_spec(result_view(*doc), path@)->Object_0);
            r
        },
        Err(msg) => {
            let mut e: Vec<(String, Json)> = Vec::new();
            e.push(("error".to_string(), Json::Str(msg.clone())));
            let r = object(e);
            assert(entries_view(e@) =~= stats_spec(result_view(*doc), path@)->Object_0);
            r
        },
    }
}

/// The `session_stats` answer when the memory file is missing.
pub fn empty_stats(path: &str) -> (r: Json)
    ensures
        r@ == empty_stats_spec(path@),
{
    let mut e: Vec<(String, Json)> = Vec::new();
    e.push(("turns".to_string(), Json::Number(decimal_string(0))));
    e.push(("chunks".to_string(), Json::Number(decimal_string(0))));
    e.push(("path".to_string(), Json::Str(path.to_string())));
    e.push(("empty".to_string(), Json::Bool(true)));
    let r = object(e);
    assert(entries_view(e@) =~= empty_stats_spec(path@)->Object_0);
    r
}

// ---------------------------------------------------------------------------
// The notes store.
// ---------------------------------------------------------------------------

/// The notes as a map from key to text: later entries win.
pub open spec fn notes_map(notes: Seq<(String, String)>) -> Map<Seq<char>, Seq<char>>
    decreases notes.len(),
{
    if notes.len() == 0 {
        Map::empty()
    } else {
        notes_map(notes.drop_last()).insert(notes.last().0@, notes.last().1@)
    }
}

/// Every value of the object is a string.
pub open spec fn all_string_values(o: Seq<(Seq<char>, JsonV)>) -> bool {
    forall|i: int| 0 <= i < o.len() ==> (#[trigger] o[i]).1 is Str
}

/// The error for a notes file that is not an object of strings.
pub open spec fn bad_notes_message() -> Seq<char> {
    "notes file is not an object of strings"@
}

/// The notes a notes file holds: an object whose values are all strings
/// gives its entries, in order; any other document is an error, and so is a
/// text serde_json does not parse (its error is passed on).
pub fn notes_from_text(raw: &str) -> (r: Result<Vec<(String, String)>, String>)
    ensures
        match json_parse(raw@) {
            Ok(JsonV::Object(o)) => if all_string_values(o) {
                r matches Ok(v) && v@.len() == o.len() && forall|i: int|
                    0 <= i < o.len() ==> (#[trigger] v@[i]).0@ == o[i].0 && JsonV::Str(v@[i].1@)
                        == o[i].1
            } else {
                r matches Err(m) && m@ == bad_notes_message()
            },
            Ok(_) => r matches Err(m) && m@ == bad_notes_message(),
            Err(e) => r matches Err(m) && m@ == e,
        },
{
    match parse_json(raw) {
        Ok(Json::Object(entries)) => {
            proof {
                lemma_object_view(entries);
            }
            let ghost o = entries_view(entries@);
            let mut out: Vec<(String, String)> = Vec::new();
            let mut i: usize = 0;
            while i < entries.len()
                invariant
                    i <= entries.len(),
                    o == entries_view(entries@),
                    json_parse(raw@) == Ok::<JsonV, Seq<char>>(JsonV::Object(o)),
                    out@.len() == i,
                    forall|k: int| 0 <= k < i ==> (#[trigger] o[k]).1 is Str,
                    forall|k: int|
                        0 <= k < i ==> (#[trigger] out@[k]).0@ == o[k].0 && JsonV::Str(out@[k].1@)
                            == o[k].1,
                decreases entries.len() - i,
            {
                match &entries[i].1 {
                    Json::Str(text) => {
                        out.push((entries[i].0.clone(), text.clone()));
                    },
                    _ => {
                        assert(!(o[i as int].1 is Str));
                        return Err("notes file is not an object of strings".to_string());
                    },
                }
                i = i + 1;
            }
            Ok(out)
        },
        Ok(_) => Err("notes file is not an object of strings".to_string()),
        Err(e) => Err(e),
    }
}

/// The text stored under `key`, if any.
pub fn note_lookup<'a>(notes: &'a [(String, String)], key: &str) -> (r: Option<&'a str>)
    ensures
        match r {
            Some(t) => notes_map(notes@).dom().contains(key@) && notes_map(notes@)[key@] == t@,
            None => !notes_map(notes@).dom().contains(key@),
        },
{
    let mut found: Option<usize> = None;
    let mut i: usize = 0;
    while i < notes.len()
        invariant
            i <= notes.len(),
            match found {
                Some(j) => j < i && notes_map(notes@.take(i as int)).dom().contains(key@)
                    && notes_map(notes@.take(i as int))[key@] == notes@[j as int].1@,
                None => !notes_map(notes@.take(i as int)).dom().contains(key@),
            },
        decreases notes.len() - i,
    {
        assert(notes@.take(i + 1).drop_last() =~= notes@.take(i as int));
        if str_eq(notes[i].0.as_str(), key) {
            found = Some(i);
        }
        i = i + 1;
    }
    assert(notes@.take(notes@.len() as int) =~= notes@);
    match found {
        Some(j) => Some(notes[j].1.as_str()),
        None => None,
    }
}

/// The notes with `text` stored under `key`: any entry for the key is
/// dropped and the new one added last.
pub fn note_insert(notes: Vec<(String, String)>, key: &str, text: &str) -> (r: Vec<(String, String)>)
    ensures
        notes_map(r@) == notes_map(notes@).insert(key@, text@),
{
    let mut out: Vec<(String, String)> = Vec::new();
    let mut i: usize = 0;
    while i < notes.len()
        invariant
            i <= notes.len(),
            notes_map(out@) == notes_map(notes@.take(i as int)).remove(key@),
        decreases notes.len() - i,
    {
        assert(notes@.take(i + 1).drop_last() =~= notes@.take(i as int));
        let ghost before = notes_map(notes@.take(i as int));
        if !str_eq(notes[i].0.as_str(), key) {
            let ghost old_out = out@;
            out.push((notes[i].0.clone(), notes[i].1.clone()));
            assert(out@.drop_last() =~= old_out);
            assert(notes_map(out@) =~= notes_map(notes@.take(i + 1)).remove(key@));
        } else {
            assert(notes_map(notes@.take(i + 1)).remove(key@) =~= before.remove(key@));
        }
        i = i + 1;
    }
    assert(notes@.take(notes@.len() as int) =~= notes@);
    let ghost old_out = out@;
    out.push((key.to_string(), text.to_string()));
    assert(out@.drop_last() =~= old_out);
    assert(notes_map(out@) =~= notes_map(notes@).insert(key@, text@));
    out
}

} // verus!
