//! The decisions of the tool-call loop around a LiteRT-LM conversation:
//! when a turn is done, when it has run too many rounds, which calls run
//! locally and where it pauses for a tool the surface runs.
use vstd::prelude::*;

use crate::engine::json::{result_view, Json, JsonV};
use crate::engine::toolcall::{calls_view, ToolCall, ToolCallV, MAX_TOOL_ROUNDS};
use crate::text::{concat2, concat3, decimal, decimal_string, str_eq};

verus! {

/// Why a chat turn failed.
#[derive(Debug, PartialEq, Eq)]
pub enum ChatError {
    ModelMissing(String),
    LiteRt(String),
    ToolLoopExceeded(usize),
    Io(String),
}

impl ChatError {
    pub open spec fn message_spec(&self) -> Seq<char> {
        match self {
            ChatError::ModelMissing(p) => "model file not found: "@ + p@,
            ChatError::LiteRt(m) => "liteRT-LM error: "@ + m@,
            ChatError::ToolLoopExceeded(n) => "tool loop exceeded "@ + decimal(*n as nat)
                + " rounds"@,
            ChatError::Io(m) => "io error: "@ + m@,
        }
    }

    /// The error text shown to the user.
    pub fn message(&self) -> (r: String)
        ensures
            r@ == self.message_spec(),
    {
        match self {
            ChatError::ModelMissing(p) => concat2("model file not found: ", p.as_str()),
            ChatError::LiteRt(m) => concat2("liteRT-LM error: ", m.as_str()),
            ChatError::ToolLoopExceeded(n) => {
                let d = decimal_string(*n as u64);
                concat3("tool loop exceeded ", d.as_str(), " rounds")
            },
            ChatError::Io(m) => concat2("io error: ", m.as_str()),
        }
    }
}

/// Result of one (segment of a) tool-enabled turn.
#[derive(Debug, PartialEq)]
pub enum ToolsTurnProgress {
    /// Model produced final assistant text.
    Done(String),
    /// The surface must run this tool and hand back its result.
    NeedHostTool {
        call: ToolCall,
        /// Same-batch calls still pending after `call`.
        queued: Vec<ToolCall>,
        rounds_used: usize,
    },
}

/// The text of a turn that must not pause for a surface tool; a pause is
/// an error naming the tool.
pub fn finished_text(progress: ToolsTurnProgress) -> (r: Result<String, ChatError>)
    ensures
        match progress {
            ToolsTurnProgress::Done(t) => r matches Ok(s) && s@ == t@,
            ToolsTurnProgress::NeedHostTool { call, .. } => r matches Err(ChatError::LiteRt(m))
                && m@ == "unexpected host tool pause for "@ + call.name@,
        },
{
    match progress {
        ToolsTurnProgress::Done(text) => Ok(text),
        ToolsTurnProgress::NeedHostTool { call, .. } => Err(
            ChatError::LiteRt(concat2("unexpected host tool pause for ", call.name.as_str())),
        ),
    }
}

/// The name is one of the surface's tools.
pub open spec fn is_host_name(names: Seq<String>, name: Seq<char>) -> bool {
    exists|i: int| 0 <= i < names.len() && #[trigger] names[i]@ == name
}

pub fn is_host_tool(names: &[String], name: &str) -> (r: bool)
    ensures
        r == is_host_name(names@, name@),
{
    let mut i: usize = 0;
    while i < names.len()
        invariant
            i <= names.len(),
            forall|k: int| 0 <= k < i ==> #[trigger] names@[k]@ != name@,
        decreases names.len() - i,
    {
        if str_eq(names[i].as_str(), name) {
            return true;
        }
        i = i + 1;
    }
    false
}

/// Position of the first call the surface must run (the length when none).
pub open spec fn first_host_from(cs: Seq<ToolCallV>, names: Seq<String>, i: int) -> int
    decreases cs.len() - i,
{
    if i < 0 || i >= cs.len() {
        cs.len() as int
    } else if is_host_name(names, cs[i].name) {
        i
    } else {
        first_host_from(cs, names, i + 1)
    }
}

pub open spec fn first_host(cs: Seq<ToolCallV>, names: Seq<String>) -> int {
    first_host_from(cs, names, 0)
}

proof fn lemma_first_host_bounds(cs: Seq<ToolCallV>, names: Seq<String>, i: int)
    requires
        0 <= i <= cs.len(),
    ensures
        i <= first_host_from(cs, names, i) <= cs.len(),
    decreases cs.len() - i,
{
    if i < cs.len() && !is_host_name(names, cs[i].name) {
        lemma_first_host_bounds(cs, names, i + 1);
    }
}

/// The calls before the first surface tool, and that tool with the calls
/// after it (in order).
pub fn split_at_host_tool(calls: Vec<ToolCall>, host_names: &[String]) -> (r: (
    Vec<ToolCall>,
    Option<(ToolCall, Vec<ToolCall>)>,
))
    ensures
        ({
            let k = first_host(calls_view(calls@), host_names@);
            &&& calls_view(r.0@) == calls_view(calls@).take(k)
            &&& match r.1 {
                Some((h, rest)) => k < calls@.len() && h@ == calls_view(calls@)[k] && calls_view(
                    rest@,
                ) == calls_view(calls@).skip(k + 1),
                None => k == calls@.len(),
            }
        }),
{
    let ghost all = calls_view(calls@);
    let mut local: Vec<ToolCall> = Vec::new();
    let mut rest = calls;
    let ghost mut i: int = 0;
    proof {
        lemma_first_host_bounds(all, host_names@, 0);
        assert(calls_view(rest@) =~= all.skip(0));
        assert(calls_view(local@) =~= all.take(0));
    }
    while rest.len() > 0
        invariant
            all == calls_view(calls@),
            0 <= i <= all.len(),
            calls_view(local@) == all.take(i),
            calls_view(rest@) == all.skip(i),
            first_host(all, host_names@) == first_host_from(all, host_names@, i),
        decreases rest.len(),
    {
        let ghost old_rest = rest@;
        assert(calls_view(old_rest).len() == old_rest.len());
        assert(i < all.len());
        assert(calls_view(old_rest)[0] == old_rest[0]@);
        let c = rest.remove(0);
        assert(c@ == all[i]);
        assert(rest@ =~= old_rest.drop_first());
        assert(calls_view(rest@) =~= all.skip(i + 1)) by {
            assert forall|k: int| 0 <= k < rest@.len() implies calls_view(rest@)[k] == all.skip(i + 1)[k] by {
                assert(calls_view(old_rest)[k + 1] == old_rest[k + 1]@);
            }
        }
        if is_host_tool(host_names, c.name.as_str()) {
            assert(first_host_from(all, host_names@, i) == i);
            return (local, Some((c, rest)));
        }
        let ghost old_local = local@;
        assert(first_host_from(all, host_names@, i) == first_host_from(all, host_names@, i + 1));
        local.push(c);
        proof {
            assert(local@ == old_local.push(c));
            assert(calls_view(old_local).len() == i);
            assert forall|k: int| 0 <= k < i + 1 implies calls_view(local@)[k] == all.take(i + 1)[k] by {
                assert(calls_view(local@)[k] == local@[k]@);
                if k < i {
                    assert(local@[k] == old_local[k]);
                    assert(calls_view(old_local)[k] == old_local[k]@);
                    assert(calls_view(old_local)[k] == all.take(i)[k]);
                } else {
                    assert(local@[k] == c);
                }
            }
            assert(calls_view(local@) =~= all.take(i + 1));
            i = i + 1;
        }
    }
    assert(all.skip(i).len() == 0);
    (local, None)
}

/// What to do with the calls the model asked for in one round.
#[derive(Debug, PartialEq)]
pub enum RoundPlan {
    /// No calls: the turn ends with the assistant text.
    Finish,
    /// Answer `local` in order; then either pause on `host` (with the calls
    /// queued after it) or ask the model again.
    Run {
        local: Vec<ToolCall>,
        host: Option<(ToolCall, Vec<ToolCall>)>,
        rounds_used: usize,
    },
}

/// Plan one round of the tool loop after `rounds_used` earlier rounds.
pub fn plan_tool_round(calls: Vec<ToolCall>, rounds_used: usize, host_names: &[String]) -> (r:
    Result<RoundPlan, ChatError>)
    ensures
        calls@.len() == 0 ==> r == Ok::<RoundPlan, ChatError>(RoundPlan::Finish),
        calls@.len() > 0 && rounds_used >= MAX_TOOL_ROUNDS ==> r == Err::<RoundPlan, ChatError>(
            ChatError::ToolLoopExceeded(MAX_TOOL_ROUNDS),
        ),
        r matches Ok(RoundPlan::Run { rounds_used: n, .. }) ==> n <= MAX_TOOL_ROUNDS,
        calls@.len() > 0 && rounds_used < MAX_TOOL_ROUNDS ==> (r matches Ok(
            RoundPlan::Run { local, host, rounds_used: n },
        ) && n == rounds_used + 1 && ({
            let k = first_host(calls_view(calls@), host_names@);
            &&& calls_view(local@) == calls_view(calls@).take(k)
            &&& match host {
                Some((h, rest)) => k < calls@.len() && h@ == calls_view(calls@)[k] && calls_view(
                    rest@,
                ) == calls_view(calls@).skip(k + 1),
                None => k == calls@.len(),
            }
        })),
{
    if calls.len() == 0 {
        return Ok(RoundPlan::Finish);
    }
    if rounds_used >= MAX_TOOL_ROUNDS {
        return Err(ChatError::ToolLoopExceeded(MAX_TOOL_ROUNDS));
    }
    let (local, host) = split_at_host_tool(calls, host_names);
    Ok(RoundPlan::Run { local, host, rounds_used: rounds_used + 1 })
}

// ---------------------------------------------------------------------------
// Tool responses.
// ---------------------------------------------------------------------------

pub open spec fn str_entry(k: Seq<char>, v: Seq<char>) -> (Seq<char>, JsonV) {
    (k, JsonV::Str(v))
}

/// What a local tool call is answered with: the tool's result, its error,
/// or a refusal when consent was not given.
pub open spec fn local_response_spec(name: Seq<char>, allowed: bool, result: Result<JsonV, Seq<char>>) -> JsonV {
    if allowed {
        match result {
            Ok(v) => v,
            Err(e) => JsonV::Object(seq![str_entry("error"@, e)]),
        }
    } else {
        JsonV::Object(seq![str_entry("error"@, "tool denied by consent policy"@), str_entry("tool"@, name)])
    }
}

fn str_pair(k: &str, v: String) -> (r: (String, Json))
    ensures
        r.0@ == k@,
        r.1@ == JsonV::Str(v@),
{
    (k.to_string(), Json::Str(v))
}

pub fn local_tool_response(name: &str, allowed: bool, result: Result<Json, String>) -> (r: Json)
    ensures
        r@ == local_response_spec(name@, allowed, result_view(result)),
{
    if allowed {
        match result {
            Ok(v) => v,
            Err(e) => {
                let mut o: Vec<(String, Json)> = Vec::new();
                o.push(str_pair("error", e));
                let r = Json::Object(o);
                proof {
                    crate::engine::json::lemma_object_view(o);
                    assert(crate::engine::json::entries_view(o@) =~= seq![str_entry("error"@, result_view(result)->Err_0)]);
                }
                r
            },
        }
    } else {
        let mut o: Vec<(String, Json)> = Vec::new();
        o.push(str_pair("error", "tool denied by consent policy".to_string()));
        o.push(str_pair("tool", name.to_string()));
        let r = Json::Object(o);
        proof {
            crate::engine::json::lemma_object_view(o);
            assert(crate::engine::json::entries_view(o@) =~= seq![
                str_entry("error"@, "tool denied by consent policy"@),
                str_entry("tool"@, name@),
            ]);
        }
        r
    }
}

} // verus!
