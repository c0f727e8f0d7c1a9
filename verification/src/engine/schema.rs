//! The tool declarations handed to the model (OpenAI Chat Completions
//! `tools` array): every built-in tool, the file tools and the tools that
//! need a provider.
use vstd::prelude::*;

use crate::engine::json::{
    entries_view, entry_get, items_view, json_get_spec, json_str, lemma_array_view,
    lemma_object_view, Json, JsonV,
};
use crate::engine::tools::BuiltinTool;

verus! {

// ---------------------------------------------------------------------------
// Reading a declaration.
// ---------------------------------------------------------------------------

/// The `function` object of a declaration.
pub open spec fn declared_function(t: JsonV) -> Option<JsonV> {
    json_get_spec(t, "function"@)
}

/// The name a declaration gives its tool.
pub open spec fn declared_name(t: JsonV) -> Option<Seq<char>> {
    match declared_function(t) {
        Some(f) => json_str(json_get_spec(f, "name"@)),
        None => None,
    }
}

/// The `required` list of a declaration's parameters, if it has one.
pub open spec fn declared_required(t: JsonV) -> Option<JsonV> {
    match declared_function(t) {
        Some(f) => match json_get_spec(f, "parameters"@) {
            Some(p) => json_get_spec(p, "required"@),
            None => None,
        },
        None => None,
    }
}

/// A JSON array of strings.
pub open spec fn str_array(names: Seq<Seq<char>>) -> JsonV {
    JsonV::Array(Seq::new(names.len(), |i: int| JsonV::Str(names[i])))
}

/// The texts of a list of string slices.
pub open spec fn texts(xs: Seq<&str>) -> Seq<Seq<char>> {
    Seq::new(xs.len(), |i: int| xs[i]@)
}

/// The declared tools, in order.
pub open spec fn default_tool_names() -> Seq<Seq<char>> {
    seq![
        "get_current_time"@,
        "note_write"@,
        "note_read"@,
        "session_stats"@,
        "fs_list"@,
        "fs_move"@,
        "fs_rename"@,
        "web_search"@,
        "mail_list"@,
        "drive_list"@,
    ]
}

/// The arguments a declared tool requires.
pub open spec fn default_required(name: Seq<char>) -> Option<Seq<Seq<char>>> {
    if name == "note_write"@ {
        Some(seq!["key"@, "text"@])
    } else if name == "note_read"@ {
        Some(seq!["key"@])
    } else if name == "fs_move"@ || name == "fs_rename"@ {
        Some(seq!["from"@, "to"@])
    } else if name == "web_search"@ {
        Some(seq!["query"@])
    } else {
        None
    }
}

// ---------------------------------------------------------------------------
// Building blocks.
// ---------------------------------------------------------------------------

fn text(s: &str) -> (r: Json)
    ensures
        r@ == JsonV::Str(s@),
{
    Json::Str(s.to_string())
}

fn entry(key: &str, value: Json) -> (r: (String, Json))
    ensures
        r.0@ == key@,
        r.1@ == value@,
{
    (key.to_string(), value)
}

fn object(entries: Vec<(String, Json)>) -> (r: Json)
    ensures
        r@ == JsonV::Object(entries_view(entries@)),
{
    proof {
        lemma_object_view(entries);
    }
    Json::Object(entries)
}

/// `{"type": kind, "description": description}`, or `{"type": kind}`.
fn property(name: &str, kind: &str, description: Option<&str>) -> (r: (String, Json))
    ensures
        r.0@ == name@,
        r.1@ == JsonV::Object(
            match description {
                Some(d) => seq![("type"@, JsonV::Str(kind@)), ("description"@, JsonV::Str(d@))],
                None => seq![("type"@, JsonV::Str(kind@))],
            },
        ),
{
    let mut e: Vec<(String, Json)> = Vec::new();
    e.push(entry("type", text(kind)));
    match description {
        Some(d) => e.push(entry("description", text(d))),
        None => {},
    }
    let v = object(e);
    proof {
        match description {
            Some(d) => {
                assert(entries_view(e@) =~= seq![
                    ("type"@, JsonV::Str(kind@)),
                    ("description"@, JsonV::Str(d@)),
                ]);
            },
            None => {
                assert(entries_view(e@) =~= seq![("type"@, JsonV::Str(kind@))]);
            },
        }
    }
    (name.to_string(), v)
}

/// The parameters object: `{"type": "object", "properties": …,
/// "required": […], "additionalProperties": false}`, without `required`
/// when no argument is required.
fn parameters(properties: Vec<(String, Json)>, required: &[&str]) -> (r: Json)
    ensures
        json_get_spec(r@, "required"@) == if required@.len() == 0 {
            None
        } else {
            Some(str_array(texts(required@)))
        },
{
    let ghost props = entries_view(properties@);
    let mut names: Vec<Json> = Vec::new();
    let mut i: usize = 0;
    while i < required.len()
        invariant
            i <= required.len(),
            names@.len() == i,
            forall|k: int| 0 <= k < i ==> (#[trigger] names@[k])@ == JsonV::Str(required@[k]@),
        decreases required.len() - i,
    {
        names.push(text(required[i]));
        i = i + 1;
    }
    let ghost req = texts(required@);
    proof {
        lemma_array_view(names);
        assert(items_view(names@) =~= str_array(req)->Array_0);
    }
    let listed = Json::Array(names);
    let mut e: Vec<(String, Json)> = Vec::new();
    e.push(entry("type", text("object")));
    e.push(entry("properties", object(properties)));
    let has_required = required.len() > 0;
    if has_required {
        e.push(entry("required", listed));
    }
    e.push(entry("additionalProperties", Json::Bool(false)));
    let r = object(e);
    proof {
        reveal_strlit("type");
        reveal_strlit("properties");
        reveal_strlit("required");
        reveal_strlit("additionalProperties");
        reveal_with_fuel(entry_get, 5);
        assert("type"@.len() == 4 && "properties"@.len() == 10 && "required"@.len() == 8);
        assert("additionalProperties"@.len() == 20);
        let ev = entries_view(e@);
        if has_required {
            assert(ev =~= seq![
                ("type"@, JsonV::Str("object"@)),
                ("properties"@, JsonV::Object(props)),
                ("required"@, str_array(req)),
                ("additionalProperties"@, JsonV::Bool(false)),
            ]);
            assert(ev.drop_first().drop_first() =~= seq![
                ("required"@, str_array(req)),
                ("additionalProperties"@, JsonV::Bool(false)),
            ]);
        } else {
            assert(ev =~= seq![
                ("type"@, JsonV::Str("object"@)),
                ("properties"@, JsonV::Object(props)),
                ("additionalProperties"@, JsonV::Bool(false)),
            ]);
            assert(ev.drop_first().drop_first() =~= seq![
                ("additionalProperties"@, JsonV::Bool(false)),
            ]);
            assert(ev.drop_first().drop_first().drop_first() =~= Seq::<(Seq<char>, JsonV)>::empty());
        }
    }
    r
}

/// `{"type": "function", "function": {"name", "description", "parameters"}}`.
fn function_tool(name: &str, description: &str, params: Json) -> (r: Json)
    ensures
        json_get_spec(r@, "type"@) == Some(JsonV::Str("function"@)),
        declared_name(r@) == Some(name@),
        declared_required(r@) == json_get_spec(params@, "required"@),
{
    let ghost p = params@;
    let mut f: Vec<(String, Json)> = Vec::new();
    f.push(entry("name", text(name)));
    f.push(entry("description", text(description)));
    f.push(entry("parameters", params));
    let func = object(f);
    let mut t: Vec<(String, Json)> = Vec::new();
    t.push(entry("type", text("function")));
    t.push(entry("function", func));
    let r = object(t);
    proof {
        reveal_strlit("type");
        reveal_strlit("function");
        reveal_strlit("name");
        reveal_strlit("description");
        reveal_strlit("parameters");
        reveal_with_fuel(entry_get, 4);
        let fv = entries_view(f@);
        assert(fv =~= seq![
            ("name"@, JsonV::Str(name@)),
            ("description"@, JsonV::Str(description@)),
            ("parameters"@, p),
        ]);
        assert(fv.drop_first() =~= seq![("description"@, JsonV::Str(description@)), ("parameters"@, p)]);
        assert(fv.drop_first().drop_first() =~= seq![("parameters"@, p)]);
        let tv = entries_view(t@);
        assert(tv =~= seq![("type"@, JsonV::Str("function"@)), ("function"@, func@)]);
        assert(tv.drop_first() =~= seq![("function"@, func@)]);
        assert("type"@.len() == 4 && "function"@.len() == 8 && "name"@.len() == 4);
        assert("description"@.len() == 11 && "parameters"@.len() == 10);
    }
    r
}

// ---------------------------------------------------------------------------
// The declarations.
// ---------------------------------------------------------------------------

/// The tool declarations, in the order of [`default_tool_names`]; each is a
/// `function` tool whose parameters require what [`default_required`] lists.
pub fn default_tools() -> (r: Vec<Json>)
    ensures
        r@.len() == default_tool_names().len(),
        forall|i: int|
            0 <= i < r@.len() ==> json_get_spec((#[trigger] r@[i])@, "type"@) == Some(
                JsonV::Str("function"@),
            ) && declared_name(r@[i]@) == Some(default_tool_names()[i]) && declared_required(
                r@[i]@,
            ) == match default_required(default_tool_names()[i]) {
                Some(ks) => Some(str_array(ks)),
                None => None,
            },
{
    let none: [&str; 0] = [];
    let key_text: [&str; 2] = ["key", "text"];
    let key: [&str; 1] = ["key"];
    let from_to: [&str; 2] = ["from", "to"];
    let query: [&str; 1] = ["query"];
    proof {
        assert(none@.len() == 0);
        assert(texts(key_text@) =~= seq!["key"@, "text"@]);
        assert(texts(key@) =~= seq!["key"@]);
        assert(texts(from_to@) =~= seq!["from"@, "to"@]);
        assert(texts(query@) =~= seq!["query"@]);
    }
    let mut out: Vec<Json> = Vec::new();

    out.push(function_tool(
        "get_current_time",
        "Return the current UTC date and time as ISO-8601. Use when the user asks what time or date it is.",
        parameters(Vec::new(), &none),
    ));

    let mut p: Vec<(String, Json)> = Vec::new();
    p.push(property("key", "string", Some("Short note key, e.g. shopping-list")));
    p.push(property("text", "string", Some("Note body to store")));
    out.push(function_tool(
        "note_write",
        "Store or overwrite a short durable note by key under the loco-bot notes file.",
        parameters(p, &key_text),
    ));

    let mut p: Vec<(String, Json)> = Vec::new();
    p.push(property("key", "string", Some("Note key to read")));
    out.push(function_tool(
        "note_read",
        "Read a previously stored note by key. Returns empty if missing.",
        parameters(p, &key),
    ));

    out.push(function_tool(
        "session_stats",
        "Report how many turns and topic chunks are stored in the current loco-bot session memory file.",
        parameters(Vec::new(), &none),
    ));

    let mut p: Vec<(String, Json)> = Vec::new();
    p.push(property("path", "string", Some("Relative directory to list (default `.`)")));
    out.push(function_tool(
        "fs_list",
        "List files and directories under the user-allowed filesystem sandbox root. Paths are relative to that root.",
        parameters(p, &none),
    ));

    let mut p: Vec<(String, Json)> = Vec::new();
    p.push(property("from", "string", Some("Relative source path")));
    p.push(property("to", "string", Some("Relative destination path")));
    p.push(property("dry_run", "boolean", Some("If true, validate only and do not modify disk")));
    out.push(function_tool(
        "fs_move",
        "Move or rename a file/directory inside the filesystem sandbox. Prefer dry_run=true first.",
        parameters(p, &from_to),
    ));

    let mut p: Vec<(String, Json)> = Vec::new();
    p.push(property("from", "string", None));
    p.push(property("to", "string", None));
    p.push(property("dry_run", "boolean", None));
    out.push(function_tool(
        "fs_rename",
        "Rename a file/directory inside the filesystem sandbox (alias of fs_move).",
        parameters(p, &from_to),
    ));

    let mut p: Vec<(String, Json)> = Vec::new();
    p.push(property("query", "string", Some("Search query")));
    out.push(function_tool(
        "web_search",
        "Search the web. Requires network and an explicit provider configuration; may be denied by consent.",
        parameters(p, &query),
    ));

    let mut p: Vec<(String, Json)> = Vec::new();
    p.push(property("limit", "integer", Some("Max messages")));
    out.push(function_tool(
        "mail_list",
        "List recent mail messages (OAuth). Not configured until P8 mail wiring lands.",
        parameters(p, &none),
    ));

    let mut p: Vec<(String, Json)> = Vec::new();
    p.push(property("path", "string", Some("Folder path or id")));
    out.push(function_tool(
        "drive_list",
        "List cloud drive files (OAuth). Not configured until P8 drive wiring lands.",
        parameters(p, &none),
    ));

    proof {
        reveal_strlit("get_current_time");
        reveal_strlit("note_write");
        reveal_strlit("note_read");
        reveal_strlit("session_stats");
        reveal_strlit("fs_list");
        reveal_strlit("fs_move");
        reveal_strlit("fs_rename");
        reveal_strlit("web_search");
        reveal_strlit("mail_list");
        reveal_strlit("drive_list");
        let names = default_tool_names();
        assert(names[0].len() == 16 && names[1].len() == 10 && names[2].len() == 9);
        assert(names[3].len() == 13 && names[4].len() == 7 && names[5].len() == 7);
        assert(names[6].len() == 9 && names[7].len() == 10 && names[8].len() == 9);
        assert(names[9].len() == 10);
        assert(names[1][0] == 'n' && names[7][0] == 'w' && names[9][0] == 'd');
        assert(names[2][0] == 'n' && names[6][0] == 'f' && names[8][0] == 'm');
        assert(names[4][3] == 'l' && names[5][3] == 'm');
        assert forall|i: int| 0 <= i < out@.len() implies declared_required(
            (#[trigger] out@[i])@,
        ) == match default_required(names[i]) {
            Some(ks) => Some(str_array(ks)),
            None => None,
        } by {
            if i == 0 {
                assert(default_required(names[0]) is None);
            } else if i == 1 {
            } else if i == 2 {
            } else if i == 3 {
                assert(default_required(names[3]) is None);
            } else if i == 4 {
                assert(default_required(names[4]) is None);
            } else if i == 5 {
            } else if i == 6 {
            } else if i == 7 {
            } else if i == 8 {
                assert(default_required(names[8]) is None);
            } else {
                assert(default_required(names[9]) is None);
            }
        }
    }
    out
}

/// Every tool the host runs itself is declared to the model.
pub proof fn law_builtin_tools_are_declared(name: Seq<char>)
    requires
        BuiltinTool::from_name_spec(name) is Some,
    ensures
        default_tool_names().contains(name),
{
    reveal_strlit("get_current_time");
    reveal_strlit("note_write");
    reveal_strlit("note_read");
    reveal_strlit("session_stats");
    if name == "get_current_time"@ {
        assert(default_tool_names()[0] == name);
    } else if name == "note_write"@ {
        assert(default_tool_names()[1] == name);
    } else if name == "note_read"@ {
        assert(default_tool_names()[2] == name);
    } else {
        assert(default_tool_names()[3] == name);
    }
}

} // verus!
