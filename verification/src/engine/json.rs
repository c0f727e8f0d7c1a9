//! JSON documents as the tool-call parser reads them, and the one call into
//! `serde_json` that turns text into such a document.
use vstd::prelude::*;

use crate::text::{chars_of, remove_all, remove_all_exec, string_of};

verus! {

#[verifier::external_type_specification]
#[verifier::external_body]
#[verifier::reject_recursive_types(K)]
#[verifier::reject_recursive_types(V)]
pub struct ExJsonMap<K, V>(serde_json::Map<K, V>);

#[verifier::external_type_specification]
#[verifier::external_body]
pub struct ExJsonValue(serde_json::Value);

/// A JSON value. A number is held as text (as serde_json renders it); an
/// object holds its entries in order (sorted by key when serde_json built it).
#[derive(Debug, PartialEq)]
pub enum Json {
    Null,
    Bool(bool),
    Number(String),
    Str(String),
    Array(Vec<Json>),
    Object(Vec<(String, Json)>),
}

/// The mathematical model of a JSON value.
pub enum JsonV {
    Null,
    Bool(bool),
    Number(Seq<char>),
    Str(Seq<char>),
    Array(Seq<JsonV>),
    Object(Seq<(Seq<char>, JsonV)>),
}

pub open spec fn json_view(j: Json) -> JsonV
    decreases j,
{
    match j {
        Json::Null => JsonV::Null,
        Json::Bool(b) => JsonV::Bool(b),
        Json::Number(n) => JsonV::Number(n@),
        Json::Str(s) => JsonV::Str(s@),
        Json::Array(a) => JsonV::Array(
            Seq::new(
                a@.len(),
                |i: int|
                    if 0 <= i < a@.len() {
                        json_view(a@[i])
                    } else {
                        JsonV::Null
                    },
            ),
        ),
        Json::Object(o) => JsonV::Object(
            Seq::new(
                o@.len(),
                |i: int|
                    if 0 <= i < o@.len() {
                        (o@[i].0@, json_view(o@[i].1))
                    } else {
                        (Seq::empty(), JsonV::Null)
                    },
            ),
        ),
    }
}

impl View for Json {
    type V = JsonV;

    open spec fn view(&self) -> JsonV {
        json_view(*self)
    }
}

/// The model of a list of object entries.
pub open spec fn entries_view(o: Seq<(String, Json)>) -> Seq<(Seq<char>, JsonV)> {
    Seq::new(o.len(), |i: int| (o[i].0@, o[i].1@))
}

pub proof fn lemma_object_view(o: Vec<(String, Json)>)
    ensures
        Json::Object(o)@ == JsonV::Object(entries_view(o@)),
{
    let j = Json::Object(o);
    assert(j@->Object_0 =~= entries_view(o@));
}

/// The model of a list of values.
pub open spec fn items_view(a: Seq<Json>) -> Seq<JsonV> {
    Seq::new(a.len(), |i: int| a[i]@)
}

pub proof fn lemma_array_view(a: Vec<Json>)
    ensures
        Json::Array(a)@ == JsonV::Array(items_view(a@)),
{
    let j = Json::Array(a);
    assert(j@->Array_0 =~= items_view(a@));
}

// ---------------------------------------------------------------------------
// Parsing (serde_json).
// ---------------------------------------------------------------------------

/// What `serde_json::from_str::<serde_json::Value>` gives for a text: the
/// document, or the text of the error it reports.
pub uninterp spec fn json_parse(text: Seq<char>) -> Result<JsonV, Seq<char>>;

/// The document a text parses to, if serde_json accepts it.
pub open spec fn json_doc(text: Seq<char>) -> Option<JsonV> {
    match json_parse(text) {
        Ok(v) => Some(v),
        Err(_) => None,
    }
}

/// The model of a result holding a document or an error text.
pub open spec fn result_view(r: Result<Json, String>) -> Result<JsonV, Seq<char>> {
    match r {
        Ok(j) => Ok(j@),
        Err(e) => Err(e@),
    }
}

/// Calls `serde_json::from_str::<serde_json::Value>`, converts the value it
/// returns variant for variant, and renders its error with `to_string`.
#[verifier::external_body]
pub(crate) fn parse_json(text: &str) -> (r: Result<Json, String>)
    ensures
        result_view(r) == json_parse(text@),
{
    match serde_json::from_str::<serde_json::Value>(text) {
        Ok(v) => Ok(json_of_value(v)),
        Err(e) => Err(e.to_string()),
    }
}

/// Converts a `serde_json::Value` into a `Json`, variant for variant.
#[verifier::external_body]
fn json_of_value(v: serde_json::Value) -> Json {
    match v {
        serde_json::Value::Null => Json::Null,
        serde_json::Value::Bool(b) => Json::Bool(b),
        serde_json::Value::Number(n) => Json::Number(n.to_string()),
        serde_json::Value::String(s) => Json::Str(s),
        serde_json::Value::Array(a) => Json::Array(a.into_iter().map(json_of_value).collect()),
        serde_json::Value::Object(m) => Json::Object(
            m.into_iter().map(|(k, v)| (k, json_of_value(v))).collect(),
        ),
    }
}

// ---------------------------------------------------------------------------
// Reading values.
// ---------------------------------------------------------------------------

/// The value of the first entry named `key`.
pub open spec fn entry_get(o: Seq<(Seq<char>, JsonV)>, key: Seq<char>) -> Option<JsonV>
    decreases o.len(),
{
    if o.len() == 0 {
        None
    } else if o[0].0 == key {
        Some(o[0].1)
    } else {
        entry_get(o.drop_first(), key)
    }
}

/// What `Value::get` returns for a key: the entry of an object, else nothing.
pub open spec fn json_get_spec(v: JsonV, key: Seq<char>) -> Option<JsonV> {
    match v {
        JsonV::Object(o) => entry_get(o, key),
        _ => None,
    }
}

/// The text of a string value.
pub open spec fn json_str(v: Option<JsonV>) -> Option<Seq<char>> {
    match v {
        Some(JsonV::Str(s)) => Some(s),
        _ => None,
    }
}

/// Looks up `key` in the entries of an object.
pub fn entries_get<'a>(o: &'a [(String, Json)], key: &str) -> (r: Option<&'a Json>)
    ensures
        match r {
            Some(x) => entry_get(entries_view(o@), key@) == Some(x@),
            None => entry_get(entries_view(o@), key@).is_none(),
        },
{
    let ghost all = entries_view(o@);
    assert(all.subrange(0, all.len() as int) =~= all);
    let mut i: usize = 0;
    while i < o.len()
        invariant
            i <= o.len(),
            all == entries_view(o@),
            entry_get(all, key@) == entry_get(all.subrange(i as int, all.len() as int), key@),
        decreases o.len() - i,
    {
        let ghost rest = all.subrange(i as int, all.len() as int);
        assert(rest[0] == (o@[i as int].0@, o@[i as int].1@));
        if crate::text::str_eq(o[i].0.as_str(), key) {
            return Some(&o[i].1);
        }
        assert(rest.drop_first() =~= all.subrange(i + 1, all.len() as int));
        i = i + 1;
    }
    None
}

/// `Value::get`: the entry named `key` of an object.
pub fn json_get<'a>(v: &'a Json, key: &str) -> (r: Option<&'a Json>)
    ensures
        match r {
            Some(x) => json_get_spec(v@, key@) == Some(x@),
            None => json_get_spec(v@, key@).is_none(),
        },
{
    match v {
        Json::Object(o) => {
            proof {
                lemma_object_view(*o);
            }
            entries_get(o.as_slice(), key)
        },
        _ => None,
    }
}

/// `Value::as_str` of an optional value.
pub fn json_as_str<'a>(v: Option<&'a Json>) -> (r: Option<&'a str>)
    ensures
        match r {
            Some(s) => json_str(match v {
                Some(x) => Some(x@),
                None => None,
            }) == Some(s@),
            None => json_str(match v {
                Some(x) => Some(x@),
                None => None,
            }).is_none(),
        },
{
    match v {
        Some(Json::Str(s)) => Some(s.as_str()),
        _ => None,
    }
}

// ---------------------------------------------------------------------------
// Escape tokens.
// ---------------------------------------------------------------------------

/// The quote token Gemma 4 writes inside tool arguments.
pub open spec fn escape_token() -> Seq<char> {
    "<|\"|>"@
}

/// Every string in the value with the quote token removed.
pub open spec fn strip_spec(v: JsonV) -> JsonV
    decreases v,
{
    match v {
        JsonV::Str(s) => JsonV::Str(remove_all(s, escape_token())),
        JsonV::Array(a) => JsonV::Array(
            Seq::new(
                a.len(),
                |i: int|
                    if 0 <= i < a.len() {
                        strip_spec(a[i])
                    } else {
                        JsonV::Null
                    },
            ),
        ),
        JsonV::Object(o) => JsonV::Object(
            Seq::new(
                o.len(),
                |i: int|
                    if 0 <= i < o.len() {
                        (o[i].0, strip_spec(o[i].1))
                    } else {
                        (Seq::empty(), JsonV::Null)
                    },
            ),
        ),
        _ => v,
    }
}

/// A copy of the value with the quote token removed from every string.
pub fn strip_escape_tokens(v: &Json) -> (r: Json)
    ensures
        r@ == strip_spec(v@),
    decreases v,
{
    match v {
        Json::Null => Json::Null,
        Json::Bool(b) => Json::Bool(*b),
        Json::Number(n) => Json::Number(n.clone()),
        Json::Str(s) => {
            let cs = chars_of(s.as_str());
            let kept = remove_all_exec(cs.as_slice(), "<|\"|>");
            Json::Str(string_of(kept.as_slice()))
        },
        Json::Array(a) => {
            let mut out: Vec<Json> = Vec::new();
            let mut i: usize = 0;
            while i < a.len()
                invariant
                    *v == Json::Array(*a),
                    i <= a.len(),
                    out@.len() == i,
                    forall|k: int| 0 <= k < i ==> (#[trigger] out@[k])@ == strip_spec(a@[k]@),
                decreases a.len() - i,
            {
                proof {
                    assert(decreases_to!(*v => (*v)->Array_0));
                    assert(decreases_to!(*a => a@));
                    assert(decreases_to!(a@ => a@[i as int]));
                }
                let x = strip_escape_tokens(&a[i]);
                out.push(x);
                i = i + 1;
            }
            let r = Json::Array(out);
            proof {
                assert(r@ is Array && v@ is Array && strip_spec(v@) is Array);
                assert forall|k: int| 0 <= k < out@.len() implies r@->Array_0[k] == strip_spec(
                    v@,
                )->Array_0[k] by {
                    assert(r@->Array_0[k] == out@[k]@);
                    assert(v@->Array_0[k] == a@[k]@);
                }
                assert(r@->Array_0 =~= strip_spec(v@)->Array_0);
            }
            r
        },
        Json::Object(o) => {
            let mut out: Vec<(String, Json)> = Vec::new();
            let mut i: usize = 0;
            while i < o.len()
                invariant
                    *v == Json::Object(*o),
                    i <= o.len(),
                    out@.len() == i,
                    forall|k: int|
                        0 <= k < i ==> (#[trigger] out@[k]).0@ == o@[k].0@ && out@[k].1@
                            == strip_spec(o@[k].1@),
                decreases o.len() - i,
            {
                proof {
                    assert(decreases_to!(*v => (*v)->Object_0));
                    assert(decreases_to!(*o => o@));
                    assert(decreases_to!(o@ => o@[i as int]));
                    assert(decreases_to!(o@[i as int] => o@[i as int].1));
                }
                let x = strip_escape_tokens(&o[i].1);
                out.push((o[i].0.clone(), x));
                i = i + 1;
            }
            let r = Json::Object(out);
            proof {
                assert(r@ is Object && v@ is Object && strip_spec(v@) is Object);
                assert forall|k: int| 0 <= k < out@.len() implies r@->Object_0[k]
                    == strip_spec(v@)->Object_0[k] by {
                    assert(r@->Object_0[k] == (out@[k].0@, out@[k].1@));
                    assert(v@->Object_0[k] == (o@[k].0@, o@[k].1@));
                }
                assert(r@->Object_0 =~= strip_spec(v@)->Object_0);
            }
            r
        },
    }
}

/// A copy of the value.
pub fn copy_json(v: &Json) -> (r: Json)
    ensures
        r@ == v@,
    decreases v,
{
    match v {
        Json::Null => Json::Null,
        Json::Bool(b) => Json::Bool(*b),
        Json::Number(n) => Json::Number(n.clone()),
        Json::Str(s) => Json::Str(s.clone()),
        Json::Array(a) => {
            let mut out: Vec<Json> = Vec::new();
            let mut i: usize = 0;
            while i < a.len()
                invariant
                    *v == Json::Array(*a),
                    i <= a.len(),
                    out@.len() == i,
                    forall|k: int| 0 <= k < i ==> (#[trigger] out@[k])@ == a@[k]@,
                decreases a.len() - i,
            {
                proof {
                    assert(decreases_to!(*v => (*v)->Array_0));
                    assert(decreases_to!(*a => a@));
                    assert(decreases_to!(a@ => a@[i as int]));
                }
                let x = copy_json(&a[i]);
                out.push(x);
                i = i + 1;
            }
            proof {
                lemma_array_view(out);
                lemma_array_view(*a);
                assert(items_view(out@) =~= items_view(a@));
            }
            Json::Array(out)
        },
        Json::Object(o) => {
            let mut out: Vec<(String, Json)> = Vec::new();
            let mut i: usize = 0;
            while i < o.len()
                invariant
                    *v == Json::Object(*o),
                    i <= o.len(),
                    out@.len() == i,
                    forall|k: int|
                        0 <= k < i ==> (#[trigger] out@[k]).0@ == o@[k].0@ && out@[k].1@ == o@[k].1@,
                decreases o.len() - i,
            {
                proof {
                    assert(decreases_to!(*v => (*v)->Object_0));
                    assert(decreases_to!(*o => o@));
                    assert(decreases_to!(o@ => o@[i as int]));
                    assert(decreases_to!(o@[i as int] => o@[i as int].1));
                }
                let x = copy_json(&o[i].1);
                out.push((o[i].0.clone(), x));
                i = i + 1;
            }
            proof {
                lemma_object_view(out);
                lemma_object_view(*o);
                assert(entries_view(out@) =~= entries_view(o@));
            }
            Json::Object(out)
        },
    }
}

/// A copy of a list of object entries.
pub fn copy_entries(o: &[(String, Json)]) -> (r: Vec<(String, Json)>)
    ensures
        entries_view(r@) == entries_view(o@),
{
    let mut out: Vec<(String, Json)> = Vec::new();
    let mut i: usize = 0;
    while i < o.len()
        invariant
            i <= o.len(),
            out@.len() == i,
            forall|k: int| 0 <= k < i ==> (#[trigger] out@[k]).0@ == o@[k].0@ && out@[k].1@ == o@[k].1@,
        decreases o.len() - i,
    {
        out.push((o[i].0.clone(), copy_json(&o[i].1)));
        i = i + 1;
    }
    assert(entries_view(out@) =~= entries_view(o@));
    out
}

} // verus!
