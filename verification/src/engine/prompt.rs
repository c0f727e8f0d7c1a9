//! The messages sent to the model: a user turn (with the session notes
//! before it) and the answer to a tool call.
use vstd::prelude::*;

use crate::engine::json::{entries_view, items_view, lemma_array_view, lemma_object_view, Json, JsonV};
use crate::text::concat3;

verus! {

/// The user text with the session notes before it (separated by a blank
/// line), or the user text alone when there are no notes.
pub open spec fn with_session_notes_spec(notes: Option<Seq<char>>, user: Seq<char>) -> Seq<char> {
    match notes {
        Some(n) => if n.len() > 0 {
            n + "\n\n"@ + user
        } else {
            user
        },
        None => user,
    }
}

pub fn with_session_notes(notes: Option<&str>, user: &str) -> (r: String)
    ensures
        r@ == with_session_notes_spec(
            match notes {
                Some(n) => Some(n@),
                None => None,
            },
            user@,
        ),
{
    match notes {
        Some(n) => {
            if n.is_empty() {
                user.to_string()
            } else {
                concat3(n, "\n\n", user)
            }
        },
        None => user.to_string(),
    }
}

/// `{"role": "user", "content": text}`.
pub open spec fn user_message_spec(text: Seq<char>) -> JsonV {
    JsonV::Object(seq![("role"@, JsonV::Str("user"@)), ("content"@, JsonV::Str(text))])
}

/// The LiteRT-LM message for a plain user turn.
pub fn user_message(text: &str) -> (r: Json)
    ensures
        r@ == user_message_spec(text@),
{
    let mut e: Vec<(String, Json)> = Vec::new();
    e.push(("role".to_string(), Json::Str("user".to_string())));
    e.push(("content".to_string(), Json::Str(text.to_string())));
    proof {
        lemma_object_view(e);
        assert(entries_view(e@) =~= user_message_spec(text@)->Object_0);
    }
    Json::Object(e)
}

/// `{"role": "system", "content": text}`.
pub open spec fn system_message_spec(text: Seq<char>) -> JsonV {
    JsonV::Object(seq![("role"@, JsonV::Str("system"@)), ("content"@, JsonV::Str(text))])
}

/// The system message a conversation starts with.
pub fn system_message(text: &str) -> (r: Json)
    ensures
        r@ == system_message_spec(text@),
{
    let mut e: Vec<(String, Json)> = Vec::new();
    e.push(("role".to_string(), Json::Str("system".to_string())));
    e.push(("content".to_string(), Json::Str(text.to_string())));
    proof {
        lemma_object_view(e);
        assert(entries_view(e@) =~= system_message_spec(text@)->Object_0);
    }
    Json::Object(e)
}

/// `{"role": "tool", "content": [{"name": name, "response": response}]}`,
/// with `"tool_call_id": id` after them when the call had an id.
pub open spec fn tool_response_spec(name: Seq<char>, response: JsonV, id: Option<Seq<char>>) -> JsonV {
    let head = seq![
        ("role"@, JsonV::Str("tool"@)),
        ("content"@, JsonV::Array(
            seq![JsonV::Object(seq![("name"@, JsonV::Str(name)), ("response"@, response)])],
        )),
    ];
    JsonV::Object(
        match id {
            Some(i) => head.push(("tool_call_id"@, JsonV::Str(i))),
            None => head,
        },
    )
}

/// A `role: tool` message answering a call.
pub fn tool_response_message(name: &str, response: Json, tool_call_id: Option<&str>) -> (r: Json)
    ensures
        r@ == tool_response_spec(
            name@,
            response@,
            match tool_call_id {
                Some(i) => Some(i@),
                None => None,
            },
        ),
{
    let ghost rv = response@;
    let mut block: Vec<(String, Json)> = Vec::new();
    block.push(("name".to_string(), Json::Str(name.to_string())));
    block.push(("response".to_string(), response));
    proof {
        lemma_object_view(block);
        assert(entries_view(block@) =~= seq![("name"@, JsonV::Str(name@)), ("response"@, rv)]);
    }
    let mut content: Vec<Json> = Vec::new();
    content.push(Json::Object(block));
    proof {
        lemma_array_view(content);
        assert(items_view(content@) =~= seq![
            JsonV::Object(seq![("name"@, JsonV::Str(name@)), ("response"@, rv)]),
        ]);
    }
    let mut e: Vec<(String, Json)> = Vec::new();
    e.push(("role".to_string(), Json::Str("tool".to_string())));
    e.push(("content".to_string(), Json::Array(content)));
    match tool_call_id {
        Some(id) => e.push(("tool_call_id".to_string(), Json::Str(id.to_string()))),
        None => {},
    }
    proof {
        lemma_object_view(e);
        assert(entries_view(e@) =~= tool_response_spec(
            name@,
            rv,
            match tool_call_id {
                Some(i) => Some(i@),
                None => None,
            },
        )->Object_0);
    }
    Json::Object(e)
}

} // verus!
