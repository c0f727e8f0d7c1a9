//! Tool calls in LiteRT-LM / Gemma 4 assistant messages: OpenAI-style
//! `tool_calls`, multimodal `content[]` blocks, concatenated `{...}{...}`
//! documents and the raw `<|tool_call>` token form.
use vstd::prelude::*;

use crate::engine::json::{
    entries_get, entries_view, entry_get, items_view, json_as_str, json_get, json_get_spec,
    json_doc, json_str, lemma_array_view, lemma_object_view, parse_json, strip_escape_tokens,
    strip_spec, escape_token, Json, JsonV,
};
use crate::text::{
    chars_of, find_chars, find_spec, has_substring, lemma_find_from_bounds, occurs_at_exec, remove_all,
    str_eq, string_of, trim, trim_spec, trim_start, trim_start_spec,
};

verus! {

/// Safety cap for the tool-call → execute → continue loop.
pub const MAX_TOOL_ROUNDS: usize = 4;

/// One tool invocation requested by the model. Arguments hold the entries
/// of the arguments object in the order parsing gave them (sorted by key when
/// they came from a JSON call).
#[derive(Debug, PartialEq)]
pub struct ToolCall {
    pub name: String,
    pub arguments: Vec<(String, Json)>,
    pub id: Option<String>,
}

/// The model of a tool call.
pub struct ToolCallV {
    pub name: Seq<char>,
    pub arguments: Seq<(Seq<char>, JsonV)>,
    pub id: Option<Seq<char>>,
}

pub open spec fn opt_str_view(s: Option<String>) -> Option<Seq<char>> {
    match s {
        Some(x) => Some(x@),
        None => None,
    }
}

impl View for ToolCall {
    type V = ToolCallV;

    open spec fn view(&self) -> ToolCallV {
        ToolCallV {
            name: self.name@,
            arguments: entries_view(self.arguments@),
            id: opt_str_view(self.id),
        }
    }
}

/// The models of a list of tool calls.
pub open spec fn calls_view(cs: Seq<ToolCall>) -> Seq<ToolCallV> {
    Seq::new(cs.len(), |i: int| cs[i]@)
}

pub open spec fn opt_view(v: Option<&Json>) -> Option<JsonV> {
    match v {
        Some(x) => Some(x@),
        None => None,
    }
}

// ---------------------------------------------------------------------------
// Arguments.
// ---------------------------------------------------------------------------

/// The arguments of a call: an object (quote tokens removed), or a string
/// holding a JSON object; anything else gives no arguments.
pub open spec fn normalize_spec(raw: Option<JsonV>) -> Seq<(Seq<char>, JsonV)> {
    let cleaned = strip_spec(
        match raw {
            Some(v) => v,
            None => JsonV::Object(Seq::empty()),
        },
    );
    match cleaned {
        JsonV::Object(m) => m,
        JsonV::Str(s) => match json_doc(s) {
            Some(JsonV::Object(m)) => m,
            _ => Seq::empty(),
        },
        _ => Seq::empty(),
    }
}

pub fn normalize_arguments(raw: Option<&Json>) -> (r: Vec<(String, Json)>)
    ensures
        entries_view(r@) == normalize_spec(opt_view(raw)),
{
    let cleaned = match raw {
        Some(v) => strip_escape_tokens(v),
        None => {
            let e: Vec<(String, Json)> = Vec::new();
            proof {
                lemma_object_view(e);
                assert(strip_spec(JsonV::Object(Seq::empty()))->Object_0 =~= Seq::<(Seq<char>, JsonV)>::empty());
                assert(entries_view(e@) =~= Seq::<(Seq<char>, JsonV)>::empty());
            }
            Json::Object(e)
        },
    };
    let ghost cv = cleaned@;
    match cleaned {
        Json::Object(m) => {
            proof {
                lemma_object_view(m);
            }
            m
        },
        Json::Str(s) => {
            match parse_json(s.as_str()) {
                Ok(Json::Object(m)) => {
                    proof {
                        lemma_object_view(m);
                    }
                    m
                },
                _ => {
                    let e: Vec<(String, Json)> = Vec::new();
                    assert(entries_view(e@) =~= Seq::<(Seq<char>, JsonV)>::empty());
                    e
                },
            }
        },
        _ => {
            let e: Vec<(String, Json)> = Vec::new();
            assert(entries_view(e@) =~= Seq::<(Seq<char>, JsonV)>::empty());
            e
        },
    }
}

// ---------------------------------------------------------------------------
// One call object.
// ---------------------------------------------------------------------------

/// The call an object describes: `{"type":"function","function":{...}}` or
/// a bare `{name, arguments, id}`; the id of the outer object wins.
pub open spec fn call_from_object_spec(raw: JsonV) -> Option<ToolCallV> {
    match raw {
        JsonV::Object(map) => {
            let is_fn = json_str(json_get_spec(raw, "type"@)) == Some("function"@);
            let fn_obj: Option<JsonV> = if is_fn {
                match json_get_spec(raw, "function"@) {
                    Some(JsonV::Object(f)) => Some(JsonV::Object(f)),
                    _ => None,
                }
            } else {
                Some(raw)
            };
            match fn_obj {
                None => None,
                Some(f) => match json_str(json_get_spec(f, "name"@)) {
                    None => None,
                    Some(name) => Some(
                        ToolCallV {
                            name,
                            arguments: normalize_spec(json_get_spec(f, "arguments"@)),
                            id: match json_str(json_get_spec(raw, "id"@)) {
                                Some(i) => Some(i),
                                None => json_str(json_get_spec(f, "id"@)),
                            },
                        },
                    ),
                },
            }
        },
        _ => None,
    }
}

pub open spec fn opt_call_view(c: Option<ToolCall>) -> Option<ToolCallV> {
    match c {
        Some(x) => Some(x@),
        None => None,
    }
}

pub fn call_from_object(raw: &Json) -> (r: Option<ToolCall>)
    ensures
        opt_call_view(r) == call_from_object_spec(raw@),
{
    let map = match raw {
        Json::Object(m) => m,
        _ => return None,
    };
    proof {
        lemma_object_view(*map);
    }
    let is_fn = match json_as_str(json_get(raw, "type")) {
        Some(t) => str_eq(t, "function"),
        None => false,
    };
    let fn_obj: &Json = if is_fn {
        match json_get(raw, "function") {
            Some(f) => match f {
                Json::Object(_) => f,
                _ => return None,
            },
            None => return None,
        }
    } else {
        raw
    };
    let name = match json_as_str(json_get(fn_obj, "name")) {
        Some(n) => n.to_string(),
        None => return None,
    };
    let arguments = normalize_arguments(json_get(fn_obj, "arguments"));
    let id = match json_as_str(json_get(raw, "id")) {
        Some(i) => Some(i.to_string()),
        None => match json_as_str(json_get(fn_obj, "id")) {
            Some(i) => Some(i.to_string()),
            None => None,
        },
    };
    Some(ToolCall { name, arguments, id })
}

// ---------------------------------------------------------------------------
// All calls of one message.
// ---------------------------------------------------------------------------

pub open spec fn opt_call(c: Option<ToolCallV>) -> Seq<ToolCallV> {
    match c {
        Some(x) => seq![x],
        None => Seq::empty(),
    }
}

/// The calls of a `tool_calls` array, skipping entries that are no call.
pub open spec fn calls_from_list(list: Seq<JsonV>) -> Seq<ToolCallV>
    decreases list.len(),
{
    if list.len() == 0 {
        Seq::empty()
    } else {
        calls_from_list(list.drop_last()) + opt_call(call_from_object_spec(list.last()))
    }
}

/// The call of a `content[]` block of type `tool_call` (its `tool_call`
/// member, or the block itself).
pub open spec fn block_call(b: JsonV) -> Option<ToolCallV> {
    if json_str(json_get_spec(b, "type"@)) == Some("tool_call"@) {
        call_from_object_spec(
            match json_get_spec(b, "tool_call"@) {
                Some(x) => x,
                None => b,
            },
        )
    } else {
        None
    }
}

pub open spec fn calls_from_blocks(list: Seq<JsonV>) -> Seq<ToolCallV>
    decreases list.len(),
{
    if list.len() == 0 {
        Seq::empty()
    } else {
        calls_from_blocks(list.drop_last()) + opt_call(block_call(list.last()))
    }
}

/// The calls of one message: those of `tool_calls`, then those of the
/// `content` blocks.
pub open spec fn harvest_spec(v: JsonV) -> Seq<ToolCallV> {
    (match json_get_spec(v, "tool_calls"@) {
        Some(JsonV::Array(calls)) => calls_from_list(calls),
        _ => Seq::empty(),
    }) + (match json_get_spec(v, "content"@) {
        Some(JsonV::Array(blocks)) => calls_from_blocks(blocks),
        _ => Seq::empty(),
    })
}

fn push_call(out: &mut Vec<ToolCall>, c: Option<ToolCall>)
    ensures
        calls_view(final(out)@) == calls_view(old(out)@) + opt_call(opt_call_view(c)),
{
    match c {
        Some(x) => {
            out.push(x);
            assert(calls_view(out@) =~= calls_view(old(out)@) + opt_call(opt_call_view(c)));
        },
        None => {
            assert(calls_view(out@) =~= calls_view(old(out)@) + opt_call(opt_call_view(c)));
        },
    }
}

/// Appends the calls of one message to `out`.
pub fn harvest_calls(value: &Json, out: &mut Vec<ToolCall>)
    ensures
        calls_view(final(out)@) == calls_view(old(out)@) + harvest_spec(value@),
{
    let ghost start = calls_view(out@);
    let ghost part1: Seq<ToolCallV> = match json_get_spec(value@, "tool_calls"@) {
        Some(JsonV::Array(calls)) => calls_from_list(calls),
        _ => Seq::empty(),
    };
    match json_get(value, "tool_calls") {
        Some(Json::Array(calls)) => {
            proof {
                lemma_array_view(*calls);
            }
            let ghost cv = items_view(calls@);
            let mut i: usize = 0;
            while i < calls.len()
                invariant
                    i <= calls.len(),
                    cv == items_view(calls@),
                    calls_view(out@) == start + calls_from_list(cv.take(i as int)),
                decreases calls.len() - i,
            {
                let c = call_from_object(&calls[i]);
                push_call(out, c);
                assert(cv.take(i + 1).drop_last() =~= cv.take(i as int));
                assert(start + calls_from_list(cv.take(i as int)) + opt_call(
                    call_from_object_spec(cv[i as int]),
                ) =~= start + calls_from_list(cv.take(i + 1)));
                i = i + 1;
            }
            assert(cv.take(calls.len() as int) =~= cv);
        },
        _ => {
            assert(start + part1 =~= start);
        },
    }
    let ghost mid = calls_view(out@);
    assert(mid == start + part1);
    match json_get(value, "content") {
        Some(Json::Array(blocks)) => {
            proof {
                lemma_array_view(*blocks);
            }
            let ghost bv = items_view(blocks@);
            let mut i: usize = 0;
            while i < blocks.len()
                invariant
                    i <= blocks.len(),
                    bv == items_view(blocks@),
                    calls_view(out@) == mid + calls_from_blocks(bv.take(i as int)),
                decreases blocks.len() - i,
            {
                let b = &blocks[i];
                let is_call = match json_as_str(json_get(b, "type")) {
                    Some(t) => str_eq(t, "tool_call"),
                    None => false,
                };
                let c = if is_call {
                    match json_get(b, "tool_call") {
                        Some(inner) => call_from_object(inner),
                        None => call_from_object(b),
                    }
                } else {
                    None
                };
                assert(opt_call_view(c) == block_call(bv[i as int]));
                push_call(out, c);
                assert(bv.take(i + 1).drop_last() =~= bv.take(i as int));
                assert(mid + calls_from_blocks(bv.take(i as int)) + opt_call(block_call(bv[i as int]))
                    =~= mid + calls_from_blocks(bv.take(i + 1)));
                i = i + 1;
            }
            assert(bv.take(blocks.len() as int) =~= bv);
            assert(mid + calls_from_blocks(bv) =~= start + harvest_spec(value@));
        },
        _ => {
            assert(mid =~= start + harvest_spec(value@));
        },
    }
}

// ---------------------------------------------------------------------------
// Plain text of a message.
// ---------------------------------------------------------------------------

/// The text of a `content[]` block of type `text`.
pub open spec fn block_text(b: JsonV) -> Seq<char> {
    if json_str(json_get_spec(b, "type"@)) == Some("text"@) {
        match json_str(json_get_spec(b, "text"@)) {
            Some(t) => t,
            None => Seq::empty(),
        }
    } else {
        Seq::empty()
    }
}

pub open spec fn texts_of(list: Seq<JsonV>) -> Seq<char>
    decreases list.len(),
{
    if list.len() == 0 {
        Seq::empty()
    } else {
        texts_of(list.drop_last()) + block_text(list.last())
    }
}

/// A message's text: a string `content`, or its text blocks joined.
pub open spec fn text_from_message_spec(v: JsonV) -> Seq<char> {
    match json_get_spec(v, "content"@) {
        Some(JsonV::Str(s)) => s,
        Some(JsonV::Array(blocks)) => texts_of(blocks),
        _ => Seq::empty(),
    }
}

pub fn text_from_message(value: &Json) -> (r: String)
    ensures
        r@ == text_from_message_spec(value@),
{
    match json_get(value, "content") {
        Some(Json::Str(s)) => s.clone(),
        Some(Json::Array(blocks)) => {
            proof {
                lemma_array_view(*blocks);
            }
            let ghost bv = items_view(blocks@);
            let mut out: Vec<char> = Vec::new();
            let mut i: usize = 0;
            while i < blocks.len()
                invariant
                    i <= blocks.len(),
                    bv == items_view(blocks@),
                    out@ == texts_of(bv.take(i as int)),
                decreases blocks.len() - i,
            {
                let b = &blocks[i];
                let is_text = match json_as_str(json_get(b, "type")) {
                    Some(t) => str_eq(t, "text"),
                    None => false,
                };
                if is_text {
                    match json_as_str(json_get(b, "text")) {
                        Some(t) => crate::text::push_str_chars(&mut out, t),
                        None => {},
                    }
                }
                assert(bv.take(i + 1).drop_last() =~= bv.take(i as int));
                assert(texts_of(bv.take(i as int)) + block_text(bv[i as int]) =~= texts_of(bv.take(i + 1)));
                i = i + 1;
            }
            assert(bv.take(blocks.len() as int) =~= bv);
            crate::text::string_of(out.as_slice())
        },
        _ => String::new(),
    }
}

// ---------------------------------------------------------------------------
// Splitting concatenated documents.
// ---------------------------------------------------------------------------

/// The scanner's state after a prefix of the text: brace depth outside
/// strings, where the open top-level object starts, whether it is inside a
/// string or just after a backslash, and the objects closed so far.
pub struct ScanState {
    pub depth: int,
    pub start: Option<int>,
    pub in_string: bool,
    pub escape: bool,
    pub out: Seq<Seq<char>>,
}

pub open spec fn scan_init() -> ScanState {
    ScanState { depth: 0, start: None, in_string: false, escape: false, out: Seq::empty() }
}

/// One character of the scan at position `i`.
pub open spec fn scan_step(st: ScanState, cs: Seq<char>, i: int) -> ScanState {
    let c = cs[i];
    if st.escape {
        ScanState { escape: false, ..st }
    } else if c == '\\' {
        ScanState { escape: true, ..st }
    } else if c == '"' {
        ScanState { in_string: !st.in_string, ..st }
    } else if st.in_string {
        st
    } else if c == '{' {
        ScanState {
            start: if st.depth == 0 {
                Some(i)
            } else {
                st.start
            },
            depth: st.depth + 1,
            ..st
        }
    } else if c == '}' {
        if st.depth - 1 == 0 {
            ScanState {
                depth: 0,
                start: None,
                out: match st.start {
                    Some(s) => st.out.push(cs.subrange(s, i + 1)),
                    None => st.out,
                },
                ..st
            }
        } else {
            ScanState { depth: st.depth - 1, ..st }
        }
    } else {
        st
    }
}

pub open spec fn scan(cs: Seq<char>, n: nat) -> ScanState
    decreases n,
{
    if n == 0 {
        scan_init()
    } else {
        scan_step(scan(cs, (n - 1) as nat), cs, n - 1)
    }
}

/// The top-level `{...}` objects of the text in order (braces inside strings
/// and after a backslash ignored); when there is none, the trimmed text if
/// it is not blank.
pub open spec fn split_spec(cs: Seq<char>) -> Seq<Seq<char>> {
    let o = scan(cs, cs.len()).out;
    if o.len() == 0 && crate::text::trim_spec(cs).len() > 0 {
        seq![crate::text::trim_spec(cs)]
    } else {
        o
    }
}

pub open spec fn strings_view(v: Seq<String>) -> Seq<Seq<char>> {
    Seq::new(v.len(), |i: int| v[i]@)
}

proof fn lemma_scan_start(cs: Seq<char>, n: nat)
    requires
        n <= cs.len(),
    ensures
        scan(cs, n).start matches Some(s) ==> 0 <= s < n,
        -(n as int) <= scan(cs, n).depth <= n,
    decreases n,
{
    if n > 0 {
        lemma_scan_start(cs, (n - 1) as nat);
    }
}

/// Splits `{...}{...}` into its documents.
pub fn split_concatenated_json(input: &str) -> (r: Vec<String>)
    ensures
        strings_view(r@) == split_spec(input@),
{
    let cs = crate::text::chars_of(input);
    let mut out: Vec<String> = Vec::new();
    let mut depth: i128 = 0;
    let mut start: Option<usize> = None;
    let mut in_string = false;
    let mut escape = false;
    let mut i: usize = 0;
    while i < cs.len()
        invariant
            cs@ == input@,
            i <= cs.len(),
            depth == scan(cs@, i as nat).depth,
            in_string == scan(cs@, i as nat).in_string,
            escape == scan(cs@, i as nat).escape,
            match start {
                Some(s) => scan(cs@, i as nat).start == Some(s as int),
                None => scan(cs@, i as nat).start.is_none(),
            },
            strings_view(out@) == scan(cs@, i as nat).out,
        decreases cs.len() - i,
    {
        proof {
            lemma_scan_start(cs@, i as nat);
        }
        let c = cs[i];
        if escape {
            escape = false;
        } else if c == '\\' {
            escape = true;
        } else if c == '"' {
            in_string = !in_string;
        } else if in_string {
        } else if c == '{' {
            if depth == 0 {
                start = Some(i);
            }
            depth = depth + 1;
        } else if c == '}' {
            depth = depth - 1;
            if depth == 0 {
                match start {
                    Some(s) => {
                        let frag = crate::text::string_of(&cs.as_slice()[s..i + 1]);
                        out.push(frag);
                        assert(strings_view(out@) =~= scan(cs@, i as nat).out.push(
                            cs@.subrange(s as int, i + 1),
                        ));
                    },
                    None => {},
                }
                start = None;
            }
        }
        i = i + 1;
    }
    assert(strings_view(out@) == scan(input@, input@.len()).out);
    assert(strings_view(out@).len() == out@.len());
    if out.len() == 0 {
        let t = crate::text::trim(input);
        if !t.is_empty() {
            let mut one: Vec<String> = Vec::new();
            one.push(t.to_string());
            assert(strings_view(one@) =~= seq![t@]);
            return one;
        }
    }
    out
}

// ---------------------------------------------------------------------------
// Raw `<|tool_call>call:NAME{key:<|"|>value<|"|>,...}<tool_call|>` calls.
// ---------------------------------------------------------------------------

pub open spec fn open_tag() -> Seq<char> {
    "<|tool_call>"@
}

pub open spec fn close_tag() -> Seq<char> {
    "<tool_call|>"@
}

pub open spec fn arg_open() -> Seq<char> {
    ":<|\"|>"@
}

/// What follows the last `,` or `{` (all of it when there is none).
pub open spec fn last_segment(s: Seq<char>) -> Seq<char>
    decreases s.len(),
{
    if s.len() == 0 {
        s
    } else if s.last() == ',' || s.last() == '{' {
        Seq::empty()
    } else {
        last_segment(s.drop_last()).push(s.last())
    }
}

/// Leading copies of `c` removed.
pub open spec fn trim_start_char(s: Seq<char>, c: char) -> Seq<char>
    decreases s.len(),
{
    if s.len() > 0 && s[0] == c {
        trim_start_char(s.drop_first(), c)
    } else {
        s
    }
}

/// Trailing copies of `c` removed.
pub open spec fn trim_end_char(s: Seq<char>, c: char) -> Seq<char>
    decreases s.len(),
{
    if s.len() > 0 && s.last() == c {
        trim_end_char(s.drop_last(), c)
    } else {
        s
    }
}

/// The first entry at or after `i` named `k`.
pub open spec fn key_index_from(acc: Seq<(Seq<char>, JsonV)>, k: Seq<char>, i: int) -> Option<int>
    decreases acc.len() - i,
{
    if i < 0 || i >= acc.len() {
        None
    } else if acc[i].0 == k {
        Some(i)
    } else {
        key_index_from(acc, k, i + 1)
    }
}

/// A map insert: the entry named `k` gets value `v` in place, or a new entry
/// is appended.
pub open spec fn args_insert(acc: Seq<(Seq<char>, JsonV)>, k: Seq<char>, v: JsonV) -> Seq<
    (Seq<char>, JsonV),
> {
    match key_index_from(acc, k, 0) {
        Some(i) => acc.update(i, (k, v)),
        None => acc.push((k, v)),
    }
}

/// The `key:<|"|>value<|"|>` pairs of a parameter list, inserted into `acc`.
pub open spec fn raw_args_spec(p: Seq<char>, acc: Seq<(Seq<char>, JsonV)>) -> Seq<
    (Seq<char>, JsonV),
>
    decreases p.len(),
{
    match find_spec(p, arg_open()) {
        None => acc,
        Some(c) => {
            let key = trim_spec(last_segment(p.take(c)));
            let p2 = p.skip(c + 6);
            match find_spec(p2, escape_token()) {
                None => acc,
                Some(e) => {
                    let acc2 = if key.len() > 0 {
                        args_insert(acc, key, JsonV::Str(p2.take(e)))
                    } else {
                        acc
                    };
                    proof {
                        reveal_strlit(":<|\"|>");
                        reveal_strlit("<|\"|>");
                        lemma_find_from_bounds(p, arg_open(), 0);
                        lemma_find_from_bounds(p2, escape_token(), 0);
                    }
                    raw_args_spec(p2.skip(e + 5), acc2)
                },
            }
        },
    }
}

/// The call of one `call:NAME{...}` body: the name before the first `{`
/// (without `call:`, trimmed), and its quoted parameters.
pub open spec fn raw_call_spec(body: Seq<char>) -> Option<ToolCallV> {
    match find_spec(body, seq!['{']) {
        None => None,
        Some(ne) => {
            let np = trim_spec(body.take(ne));
            let name = trim_spec(
                if np.len() >= 5 && np.take(5) == "call:"@ {
                    np.skip(5)
                } else {
                    np
                },
            );
            if name.len() == 0 {
                None
            } else {
                Some(
                    ToolCallV {
                        name,
                        arguments: raw_args_spec(
                            trim_end_char(trim_start_char(body.skip(ne), '{'), '}'),
                            Seq::empty(),
                        ),
                        id: None,
                    },
                )
            }
        },
    }
}

/// The calls written as raw tokens, in order; an unterminated last call
/// runs to the end of the text.
pub open spec fn raw_calls_spec(rest: Seq<char>) -> Seq<ToolCallV>
    decreases rest.len(),
{
    match find_spec(rest, open_tag()) {
        None => Seq::empty(),
        Some(o) => {
            let after = rest.skip(o + 12);
            match find_spec(after, close_tag()) {
                Some(c) => {
                    proof {
                        reveal_strlit("<|tool_call>");
                        reveal_strlit("<tool_call|>");
                        lemma_find_from_bounds(rest, open_tag(), 0);
                        lemma_find_from_bounds(after, close_tag(), 0);
                    }
                    opt_call(raw_call_spec(after.take(c))) + raw_calls_spec(after.skip(c + 12))
                },
                None => opt_call(raw_call_spec(after)),
            }
        },
    }
}

fn trimmed_chars(cs: &[char]) -> (r: Vec<char>)
    ensures
        r@ == trim_spec(cs@),
{
    let s = string_of(cs);
    chars_of(trim(s.as_str()))
}

fn last_segment_exec(s: &[char]) -> (r: Vec<char>)
    ensures
        r@ == last_segment(s@),
{
    let mut i: usize = s.len();
    assert(s@.take(s.len() as int) =~= s@);
    assert(last_segment(s@) + s@.subrange(s.len() as int, s@.len() as int) =~= last_segment(s@));
    while i > 0
        invariant
            i <= s.len(),
            last_segment(s@) == last_segment(s@.take(i as int)) + s@.subrange(i as int, s@.len() as int),
        decreases i,
    {
        let c = s[i - 1];
        assert(s@.take(i as int).drop_last() =~= s@.take(i - 1));
        if c == ',' || c == '{' {
            assert(last_segment(s@.take(i as int)) =~= Seq::<char>::empty());
            let mut out: Vec<char> = Vec::new();
            let mut k: usize = i;
            while k < s.len()
                invariant
                    i <= k <= s.len(),
                    out@ == s@.subrange(i as int, k as int),
                decreases s.len() - k,
            {
                out.push(s[k]);
                assert(s@.subrange(i as int, k as int).push(s@[k as int]) =~= s@.subrange(i as int, k + 1));
                k = k + 1;
            }
            assert(last_segment(s@) =~= out@);
            return out;
        }
        assert(last_segment(s@.take(i as int)) == last_segment(s@.take(i - 1)).push(c));
        assert(last_segment(s@.take(i - 1)).push(c) + s@.subrange(i as int, s@.len() as int)
            =~= last_segment(s@.take(i - 1)) + s@.subrange(i - 1, s@.len() as int));
        i = i - 1;
    }
    assert(s@.take(0) =~= Seq::<char>::empty());
    assert(s@.subrange(0, s@.len() as int) =~= s@);
    let mut out: Vec<char> = Vec::new();
    let mut k: usize = 0;
    while k < s.len()
        invariant
            k <= s.len(),
            out@ == s@.take(k as int),
        decreases s.len() - k,
    {
        out.push(s[k]);
        assert(s@.take(k as int).push(s@[k as int]) =~= s@.take(k + 1));
        k = k + 1;
    }
    assert(s@.take(s.len() as int) =~= s@);
    out
}

/// The parameter text between the outer braces.
fn trim_braces(s: &[char]) -> (r: (usize, usize))
    ensures
        r.0 <= r.1 <= s.len(),
        s@.subrange(r.0 as int, r.1 as int) == trim_end_char(trim_start_char(s@, '{'), '}'),
{
    let mut a: usize = 0;
    assert(s@.skip(0) =~= s@);
    while a < s.len() && s[a] == '{'
        invariant
            a <= s.len(),
            trim_start_char(s@, '{') == trim_start_char(s@.skip(a as int), '{'),
        decreases s.len() - a,
    {
        assert(s@.skip(a as int).drop_first() =~= s@.skip(a + 1));
        a = a + 1;
    }
    assert(trim_start_char(s@.skip(a as int), '{') == s@.skip(a as int));
    let mut b: usize = s.len();
    while b > a && s[b - 1] == '}'
        invariant
            a <= b <= s.len(),
            trim_end_char(s@.skip(a as int), '}') == trim_end_char(s@.subrange(a as int, b as int), '}'),
        decreases b,
    {
        assert(s@.subrange(a as int, b as int).drop_last() =~= s@.subrange(a as int, b - 1));
        b = b - 1;
    }
    assert(s@.skip(a as int) =~= s@.subrange(a as int, s@.len() as int));
    assert(trim_end_char(s@.subrange(a as int, b as int), '}') == s@.subrange(a as int, b as int));
    (a, b)
}

fn args_insert_exec(acc: &mut Vec<(String, Json)>, k: String, v: Json)
    ensures
        entries_view(final(acc)@) == args_insert(entries_view(old(acc)@), k@, v@),
{
    let ghost ev = entries_view(acc@);
    let mut i: usize = 0;
    while i < acc.len()
        invariant
            i <= acc.len(),
            ev == entries_view(acc@),
            acc@ == old(acc)@,
            key_index_from(ev, k@, 0) == key_index_from(ev, k@, i as int),
        decreases acc.len() - i,
    {
        if str_eq(acc[i].0.as_str(), k.as_str()) {
            let ghost kv = k@;
            let ghost vv = v@;
            acc.set(i, (k, v));
            assert(entries_view(acc@) =~= ev.update(i as int, (kv, vv)));
            return;
        }
        i = i + 1;
    }
    let ghost kv = k@;
    let ghost vv = v@;
    acc.push((k, v));
    assert(entries_view(acc@) =~= ev.push((kv, vv)));
}

fn raw_args(p: &[char]) -> (r: Vec<(String, Json)>)
    ensures
        entries_view(r@) == raw_args_spec(p@, Seq::empty()),
{
    let mut acc: Vec<(String, Json)> = Vec::new();
    let mut pos: usize = 0;
    assert(entries_view(acc@) =~= Seq::<(Seq<char>, JsonV)>::empty());
    assert(p@.skip(0) =~= p@);
    proof {
        reveal_strlit(":<|\"|>");
        reveal_strlit("<|\"|>");
    }
    while pos < p.len()
        invariant
            pos <= p.len(),
            raw_args_spec(p@, Seq::empty()) == raw_args_spec(p@.skip(pos as int), entries_view(acc@)),
        decreases p.len() - pos,
    {
        proof {
            reveal_strlit(":<|\"|>");
            reveal_strlit("<|\"|>");
        }
        let rest = &p[pos..p.len()];
        assert(rest@ =~= p@.skip(pos as int));
        let c = match find_chars(rest, ":<|\"|>") {
            Some(c) => c,
            None => {
                return acc;
            },
        };
        proof {
            lemma_find_from_bounds(rest@, arg_open(), 0);
        }
        let seg = last_segment_exec(&rest[0..c]);
        assert(rest@.subrange(0, c as int) =~= rest@.take(c as int));
        let key = trimmed_chars(seg.as_slice());
        let p2 = pos + c + 6;
        let tail = &p[p2..p.len()];
        assert(tail@ =~= rest@.skip(c + 6));
        let e = match find_chars(tail, "<|\"|>") {
            Some(e) => e,
            None => {
                return acc;
            },
        };
        proof {
            lemma_find_from_bounds(tail@, escape_token(), 0);
        }
        let val = string_of(&tail[0..e]);
        assert(tail@.subrange(0, e as int) =~= tail@.take(e as int));
        if key.len() > 0 {
            args_insert_exec(&mut acc, string_of(key.as_slice()), Json::Str(val));
        }
        pos = p2 + e + 5;
        assert(tail@.skip(e + 5) =~= p@.skip(pos as int));
    }
    assert(p@.skip(pos as int) =~= Seq::<char>::empty());
    assert(find_spec(Seq::<char>::empty(), arg_open()).is_none());
    acc
}

fn raw_call(body: &[char]) -> (r: Option<ToolCall>)
    ensures
        opt_call_view(r) == raw_call_spec(body@),
{
    let ne = match find_chars(body, "{") {
        Some(n) => n,
        None => {
            proof {
                reveal_strlit("{");
                assert("{"@ =~= seq!['{']);
            }
            return None;
        },
    };
    proof {
        reveal_strlit("{");
        assert("{"@ =~= seq!['{']);
        lemma_find_from_bounds(body@, seq!['{'], 0);
    }
    assert(body@.subrange(0, ne as int) =~= body@.take(ne as int));
    let np = trimmed_chars(&body[0..ne]);
    let call_prefix = chars_of("call:");
    proof {
        reveal_strlit("call:");
    }
    let has_prefix = np.len() >= 5 && occurs_at_exec(np.as_slice(), call_prefix.as_slice(), 0);
    assert(has_prefix == (np@.len() >= 5 && np@.take(5) == "call:"@)) by {
        if np@.len() >= 5 {
            assert(np@.subrange(0, 5) =~= np@.take(5));
        }
    }
    let name = if has_prefix {
        assert(np@.subrange(5, np@.len() as int) =~= np@.skip(5));
        trimmed_chars(&np.as_slice()[5..np.len()])
    } else {
        trimmed_chars(np.as_slice())
    };
    if name.len() == 0 {
        return None;
    }
    let params = &body[ne..body.len()];
    assert(params@ =~= body@.skip(ne as int));
    let (a, b) = trim_braces(params);
    let arguments = raw_args(&params[a..b]);
    Some(ToolCall { name: string_of(name.as_slice()), arguments, id: None })
}

/// Appends the calls written as raw `<|tool_call>` tokens to `out`.
pub fn harvest_raw_token_calls(text: &str, out: &mut Vec<ToolCall>)
    ensures
        calls_view(final(out)@) == calls_view(old(out)@) + raw_calls_spec(text@),
{
    let cs = chars_of(text);
    let mut pos: usize = 0;
    assert(cs@.skip(0) =~= cs@);
    proof {
        reveal_strlit("<|tool_call>");
        reveal_strlit("<tool_call|>");
    }
    while pos < cs.len()
        invariant
            pos <= cs.len(),
            cs@ == text@,
            calls_view(old(out)@) + raw_calls_spec(text@) == calls_view(out@) + raw_calls_spec(
                cs@.skip(pos as int),
            ),
        decreases cs.len() - pos,
    {
        proof {
            reveal_strlit("<|tool_call>");
            reveal_strlit("<tool_call|>");
        }
        let rest = &cs.as_slice()[pos..cs.len()];
        assert(rest@ =~= cs@.skip(pos as int));
        let o = match find_chars(rest, "<|tool_call>") {
            Some(o) => o,
            None => {
                assert(raw_calls_spec(rest@) =~= Seq::<ToolCallV>::empty());
                assert(calls_view(out@) + Seq::<ToolCallV>::empty() =~= calls_view(out@));
                return;
            },
        };
        proof {
            lemma_find_from_bounds(rest@, open_tag(), 0);
        }
        let a = pos + o + 12;
        let after = &cs.as_slice()[a..cs.len()];
        assert(after@ =~= rest@.skip(o + 12));
        let ghost before_out = calls_view(out@);
        match find_chars(after, "<tool_call|>") {
            Some(c) => {
                proof {
                    lemma_find_from_bounds(after@, close_tag(), 0);
                }
                let body = &after[0..c];
                assert(body@ =~= after@.take(c as int));
                let call = raw_call(body);
                push_call(out, call);
                pos = a + c + 12;
                assert(after@.skip(c + 12) =~= cs@.skip(pos as int));
                assert(before_out + (opt_call(raw_call_spec(body@)) + raw_calls_spec(cs@.skip(pos as int)))
                    =~= calls_view(out@) + raw_calls_spec(cs@.skip(pos as int)));
            },
            None => {
                let call = raw_call(after);
                push_call(out, call);
                pos = cs.len();
                assert(cs@.skip(pos as int) =~= Seq::<char>::empty());
                assert(find_spec(Seq::<char>::empty(), open_tag()).is_none());
                assert(before_out + opt_call(raw_call_spec(after@)) =~= calls_view(out@)
                    + raw_calls_spec(cs@.skip(pos as int)));
            },
        }
    }
    assert(cs@.skip(pos as int) =~= Seq::<char>::empty());
    assert(find_spec(Seq::<char>::empty(), open_tag()).is_none());
    assert(calls_view(out@) + raw_calls_spec(cs@.skip(pos as int)) =~= calls_view(out@));
}

// ---------------------------------------------------------------------------
// Whole messages.
// ---------------------------------------------------------------------------

pub open spec fn opt_json_view(v: Option<Json>) -> Option<JsonV> {
    match v {
        Some(x) => Some(x@),
        None => None,
    }
}

pub open spec fn parsed_view(ps: Seq<Option<Json>>) -> Seq<Option<JsonV>> {
    Seq::new(ps.len(), |i: int| opt_json_view(ps[i]))
}

/// The calls of the documents that parsed, in order.
pub open spec fn parsed_calls(parsed: Seq<Option<JsonV>>) -> Seq<ToolCallV>
    decreases parsed.len(),
{
    if parsed.len() == 0 {
        Seq::empty()
    } else {
        parsed_calls(parsed.drop_last()) + match parsed.last() {
            Some(v) => harvest_spec(v),
            None => Seq::empty(),
        }
    }
}

/// The calls of a message given what each of its documents parsed to: the
/// JSON calls, or else the raw-token calls when the text has the marker.
pub open spec fn tool_calls_spec(parsed: Seq<Option<JsonV>>, raw: Seq<char>) -> Seq<ToolCallV> {
    let calls = parsed_calls(parsed);
    if calls.len() == 0 && has_substring(raw, open_tag()) {
        raw_calls_spec(raw)
    } else {
        calls
    }
}

/// What each document of the text parses to.
pub open spec fn documents_parsed(raw: Seq<char>) -> Seq<Option<JsonV>> {
    Seq::new(split_spec(raw).len(), |i: int| json_doc(split_spec(raw)[i]))
}

/// The tool calls of a message whose documents parsed to `parsed`.
pub fn tool_calls_from(parsed: &[Option<Json>], raw: &str) -> (r: Vec<ToolCall>)
    ensures
        calls_view(r@) == tool_calls_spec(parsed_view(parsed@), raw@),
{
    let ghost pv = parsed_view(parsed@);
    let mut out: Vec<ToolCall> = Vec::new();
    let mut i: usize = 0;
    assert(calls_view(out@) =~= Seq::<ToolCallV>::empty());
    while i < parsed.len()
        invariant
            i <= parsed.len(),
            pv == parsed_view(parsed@),
            calls_view(out@) == parsed_calls(pv.take(i as int)),
        decreases parsed.len() - i,
    {
        let ghost before = calls_view(out@);
        match &parsed[i] {
            Some(v) => harvest_calls(v, &mut out),
            None => {
                assert(before + Seq::<ToolCallV>::empty() =~= before);
            },
        }
        assert(pv.take(i + 1).drop_last() =~= pv.take(i as int));
        i = i + 1;
    }
    assert(pv.take(parsed.len() as int) =~= pv);
    if out.len() == 0 {
        let cs = chars_of(raw);
        proof {
            reveal_strlit("<|tool_call>");
        }
        if crate::text::contains_str(cs.as_slice(), "<|tool_call>") {
            harvest_raw_token_calls(raw, &mut out);
            assert(calls_view(out@) =~= raw_calls_spec(raw@));
        }
    }
    out
}

fn parse_documents(raw: &str) -> (r: Vec<Option<Json>>)
    ensures
        parsed_view(r@) == documents_parsed(raw@),
{
    let frags = split_concatenated_json(raw);
    let mut out: Vec<Option<Json>> = Vec::new();
    let mut i: usize = 0;
    while i < frags.len()
        invariant
            i <= frags.len(),
            strings_view(frags@) == split_spec(raw@),
            out@.len() == i,
            forall|k: int| 0 <= k < i ==> opt_json_view(#[trigger] out@[k]) == json_doc(frags@[k]@),
        decreases frags.len() - i,
    {
        let doc = match parse_json(frags[i].as_str()) {
            Ok(j) => Some(j),
            Err(_) => None,
        };
        out.push(doc);
        i = i + 1;
    }
    assert(parsed_view(out@) =~= documents_parsed(raw@));
    out
}

/// Extract OpenAI-style tool calls from an assistant message: top-level
/// `tool_calls`, `content[]` blocks of type `tool_call`, over every
/// concatenated document, with quote tokens stripped from the arguments;
/// raw `<|tool_call>` tokens when no JSON call is found.
pub fn extract_tool_calls(raw: &str) -> (r: Vec<ToolCall>)
    ensures
        calls_view(r@) == tool_calls_spec(documents_parsed(raw@), raw@),
{
    let parsed = parse_documents(raw);
    tool_calls_from(parsed.as_slice(), raw)
}

/// The first non-empty text among the documents that parsed.
pub open spec fn first_text(parsed: Seq<Option<JsonV>>) -> Option<Seq<char>>
    decreases parsed.len(),
{
    if parsed.len() == 0 {
        None
    } else {
        match parsed[0] {
            Some(v) => if text_from_message_spec(v).len() > 0 {
                Some(text_from_message_spec(v))
            } else {
                first_text(parsed.drop_first())
            },
            None => first_text(parsed.drop_first()),
        }
    }
}

/// The assistant's plain text: the first non-empty message text; otherwise
/// nothing when the raw reply looks like JSON, else the raw reply itself.
pub open spec fn assistant_text_spec(parsed: Seq<Option<JsonV>>, raw: Seq<char>) -> Seq<char> {
    match first_text(parsed) {
        Some(t) => t,
        None => {
            let s = trim_start_spec(raw);
            if s.len() > 0 && s[0] == '{' {
                Seq::empty()
            } else {
                raw
            }
        },
    }
}

/// Plain text of a message whose documents parsed to `parsed`.
pub fn assistant_text_from(parsed: &[Option<Json>], raw: &str) -> (r: String)
    ensures
        r@ == assistant_text_spec(parsed_view(parsed@), raw@),
{
    let ghost pv = parsed_view(parsed@);
    let mut i: usize = 0;
    assert(pv.skip(0) =~= pv);
    while i < parsed.len()
        invariant
            i <= parsed.len(),
            pv == parsed_view(parsed@),
            first_text(pv) == first_text(pv.skip(i as int)),
        decreases parsed.len() - i,
    {
        assert(pv.skip(i as int).drop_first() =~= pv.skip(i + 1));
        match &parsed[i] {
            Some(v) => {
                let text = text_from_message(v);
                if !text.as_str().is_empty() {
                    return text;
                }
            },
            None => {},
        }
        i = i + 1;
    }
    assert(pv.skip(i as int).len() == 0);
    let s = trim_start(raw);
    let cs = chars_of(s);
    if cs.len() > 0 && cs[0] == '{' {
        String::new()
    } else {
        raw.to_string()
    }
}

/// Plain text from an assistant message (empty when the turn is tool-only).
pub fn extract_assistant_text(raw: &str) -> (r: String)
    ensures
        r@ == assistant_text_spec(documents_parsed(raw@), raw@),
{
    let parsed = parse_documents(raw);
    assistant_text_from(parsed.as_slice(), raw)
}

// ---------------------------------------------------------------------------
// Call ids.
// ---------------------------------------------------------------------------

/// The id a call has once `fallback` is given to it when it has none (or
/// an empty one).
pub open spec fn ensured_id(id: Option<Seq<char>>, fallback: Seq<char>) -> Option<Seq<char>> {
    match id {
        Some(i) => if i.len() == 0 {
            Some(fallback)
        } else {
            Some(i)
        },
        None => Some(fallback),
    }
}

/// Give the call `fallback` as its id when it has none or an empty one.
pub fn ensure_tool_call_id(call: &mut ToolCall, fallback: String)
    ensures
        final(call).name == old(call).name,
        final(call).arguments == old(call).arguments,
        opt_str_view(final(call).id) == ensured_id(opt_str_view(old(call).id), fallback@),
        final(call).id == match old(call).id {
            Some(i) => if i@.len() == 0 {
                Some(fallback)
            } else {
                Some(i)
            },
            None => Some(fallback),
        },
{
    let missing = match &call.id {
        Some(i) => i.as_str().is_empty(),
        None => true,
    };
    if missing {
        call.id = Some(fallback);
    }
}

/// Once a call has a non-empty id, giving it another fallback changes
/// nothing; with a non-empty fallback every call ends up with a non-empty id.
pub proof fn law_ensure_id_idempotent(id: Option<Seq<char>>, f1: Seq<char>, f2: Seq<char>)
    requires
        f1.len() > 0,
    ensures
        ensured_id(id, f1) matches Some(i) && i.len() > 0,
        ensured_id(ensured_id(id, f1), f2) == ensured_id(id, f1),
{
}

proof fn lemma_scan_fragments(cs: Seq<char>, n: nat)
    requires
        n <= cs.len(),
    ensures
        scan(cs, n).start matches Some(s) ==> 0 <= s < n && cs[s] == '{',
        forall|k: int|
            0 <= k < scan(cs, n).out.len() ==> (#[trigger] scan(cs, n).out[k]).len() >= 2
                && scan(cs, n).out[k][0] == '{' && scan(cs, n).out[k].last() == '}',
    decreases n,
{
    if n > 0 {
        lemma_scan_fragments(cs, (n - 1) as nat);
        let prev = scan(cs, (n - 1) as nat);
        let i = n - 1;
        let cur = scan(cs, n);
        assert forall|k: int| 0 <= k < cur.out.len() implies (#[trigger] cur.out[k]).len() >= 2
            && cur.out[k][0] == '{' && cur.out[k].last() == '}' by {
            if k < prev.out.len() {
                assert(cur.out[k] == prev.out[k]);
            } else {
                let s = prev.start->0;
                assert(cur.out[k] == cs.subrange(s, i + 1));
            }
        }
    }
}

/// Every document split out of a text is a braced `{...}` span of it.
pub proof fn law_split_fragments_are_braced(cs: Seq<char>)
    ensures
        scan(cs, cs.len()).out.len() > 0 ==> forall|k: int|
            0 <= k < split_spec(cs).len() ==> (#[trigger] split_spec(cs)[k]).len() >= 2
                && split_spec(cs)[k][0] == '{' && split_spec(cs)[k].last() == '}',
{
    lemma_scan_fragments(cs, cs.len());
}

/// A call object in the OpenAI form:
/// `{"function": {"arguments": args, "name": name}, "id": id, "type": "function"}`.
pub open spec fn function_call_object(name: Seq<char>, id: Seq<char>, args: JsonV) -> JsonV {
    JsonV::Object(
        seq![
            ("function"@, JsonV::Object(
                seq![("arguments"@, args), ("name"@, JsonV::Str(name))],
            )),
            ("id"@, JsonV::Str(id)),
            ("type"@, JsonV::Str("function"@)),
        ],
    )
}

/// A bare call object: `{"arguments": args, "id": id, "name": name}`.
pub open spec fn bare_call_object(name: Seq<char>, id: Seq<char>, args: JsonV) -> JsonV {
    JsonV::Object(seq![("arguments"@, args), ("id"@, JsonV::Str(id)), ("name"@, JsonV::Str(name))])
}

/// An assistant message whose `tool_calls` holds the one call object.
pub open spec fn message_with_call(call: JsonV) -> JsonV {
    JsonV::Object(seq![("tool_calls"@, JsonV::Array(seq![call]))])
}

proof fn lemma_call_keys()
    ensures
        "function"@.len() == 8 && "id"@.len() == 2 && "type"@.len() == 4,
        "arguments"@.len() == 9 && "name"@.len() == 4 && "tool_calls"@.len() == 10,
        "content"@.len() == 7,
        "name"@[0] == 'n' && "type"@[0] == 't',
{
    reveal_strlit("function");
    reveal_strlit("id");
    reveal_strlit("type");
    reveal_strlit("arguments");
    reveal_strlit("name");
    reveal_strlit("tool_calls");
    reveal_strlit("content");
}

/// The calls of a message holding the one call object `call`.
proof fn lemma_single_call_message(call: JsonV, raw: Seq<char>)
    requires
        call_from_object_spec(call) is Some,
    ensures
        tool_calls_spec(seq![Some(message_with_call(call))], raw) == seq![
            call_from_object_spec(call)->0,
        ],
{
    lemma_call_keys();
    reveal_with_fuel(entry_get, 2);
    let msg = message_with_call(call);
    assert(json_get_spec(msg, "tool_calls"@) == Some(JsonV::Array(seq![call])));
    assert(json_get_spec(msg, "content"@).is_none());
    let one = seq![call_from_object_spec(call)->0];
    assert(seq![call].drop_last() =~= Seq::<JsonV>::empty());
    assert(seq![call].last() == call);
    assert(calls_from_list(Seq::<JsonV>::empty()) == Seq::<ToolCallV>::empty());
    assert(opt_call(call_from_object_spec(call)) == one);
    assert(calls_from_list(seq![call]) =~= one);
    assert(harvest_spec(msg) =~= one);
    assert(seq![Some(msg)].drop_last() =~= Seq::<Option<JsonV>>::empty());
    assert(seq![Some(msg)].last() == Some(msg));
    assert(parsed_calls(Seq::<Option<JsonV>>::empty()) == Seq::<ToolCallV>::empty());
    assert(parsed_calls(seq![Some(msg)]) =~= one);
}

/// The arguments of a call depend only on its `arguments` value: the
/// OpenAI form and the bare form of the same call give the same call.
pub proof fn law_call_form_does_not_matter(name: Seq<char>, id: Seq<char>, args: JsonV)
    ensures
        call_from_object_spec(function_call_object(name, id, args)) == call_from_object_spec(
            bare_call_object(name, id, args),
        ),
        call_from_object_spec(bare_call_object(name, id, args)) is Some,
{
    lemma_call_keys();
    reveal_with_fuel(entry_get, 4);
    let inner = JsonV::Object(seq![("arguments"@, args), ("name"@, JsonV::Str(name))]);
    assert(json_get_spec(function_call_object(name, id, args), "function"@) == Some(inner));
    assert(json_get_spec(inner, "arguments"@) == Some(args));
    assert(json_get_spec(bare_call_object(name, id, args), "arguments"@) == Some(args));
}

/// A call whose `arguments` is a string holding a JSON object (once quote
/// tokens are removed from it) takes that object's entries as arguments,
/// whether the message writes the call in the OpenAI form or bare.
pub proof fn law_string_arguments_are_parsed(
    name: Seq<char>,
    id: Seq<char>,
    text: Seq<char>,
    m: Seq<(Seq<char>, JsonV)>,
    raw: Seq<char>,
)
    requires
        json_doc(remove_all(text, escape_token())) == Some(JsonV::Object(m)),
    ensures
        tool_calls_spec(
            seq![Some(message_with_call(function_call_object(name, id, JsonV::Str(text))))],
            raw,
        ) == seq![ToolCallV { name, arguments: m, id: Some(id) }],
        tool_calls_spec(
            seq![Some(message_with_call(bare_call_object(name, id, JsonV::Str(text))))],
            raw,
        ) == seq![ToolCallV { name, arguments: m, id: Some(id) }],
{
    lemma_call_keys();
    reveal_with_fuel(entry_get, 4);
    law_call_form_does_not_matter(name, id, JsonV::Str(text));
    let bare = bare_call_object(name, id, JsonV::Str(text));
    assert(json_get_spec(bare, "arguments"@) == Some(JsonV::Str(text)));
    assert(json_get_spec(bare, "name"@) == Some(JsonV::Str(name)));
    assert(json_get_spec(bare, "id"@) == Some(JsonV::Str(id)));
    assert(json_get_spec(bare, "type"@).is_none());
    assert(normalize_spec(Some(JsonV::Str(text))) == m);
    lemma_single_call_message(bare, raw);
    lemma_single_call_message(function_call_object(name, id, JsonV::Str(text)), raw);
}

} // verus!
