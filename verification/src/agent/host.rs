//! The agent's side of tools that the surface runs: announcing a paused
//! call, checking the result that comes back, and what the model is told.
use vstd::prelude::*;

use crate::agent::consent::ToolRisk;
use crate::agent::events::{AgentEvent, AgentError};
use crate::engine::json::{copy_entries, entries_view, lemma_object_view, Json, JsonV};
use crate::engine::toolcall::{ensure_tool_call_id, ToolCall};
use crate::text::{concat2, concat3, decimal, decimal_string, str_eq};

verus! {

/// The id given to the `seq`-th host call that came without one.
pub open spec fn host_call_id(seq: u64) -> Seq<char> {
    "host-"@ + decimal(seq as nat)
}

/// The risk shown for a host call: the one the surface declared, else the
/// built-in classification.
pub open spec fn host_risk_spec(name: Seq<char>, declared: Option<Seq<char>>) -> Seq<char> {
    match declared {
        Some(r) => r,
        None => ToolRisk::for_tool_spec(name).name(),
    }
}

/// A call handed to the surface: the call with its id filled in, the id,
/// and the events with the announcing `ToolRequest` appended.
pub struct HostRequest {
    pub call: ToolCall,
    pub call_id: String,
    pub events: Vec<AgentEvent>,
}

/// Announce a call the surface must run; `call_seq` counts such calls in
/// the session and names the call when the model gave it no id.
pub fn host_tool_request(
    call: ToolCall,
    call_seq: u64,
    declared_risk: Option<String>,
    events: Vec<AgentEvent>,
) -> (r: HostRequest)
    ensures
        r.call.name == call.name,
        r.call.arguments == call.arguments,
        r.call.id matches Some(i) && i@ == r.call_id@,
        r.call_id@ == match call.id {
            Some(i) => if i@.len() > 0 {
                i@
            } else {
                host_call_id(call_seq)
            },
            None => host_call_id(call_seq),
        },
        r.events@.len() == events@.len() + 1,
        r.events@.drop_last() == events@,
        r.events@.last() matches AgentEvent::ToolRequest { name, arguments, risk, call_id: Some(id) }
            && name@ == call.name@ && entries_view(arguments@) == entries_view(call.arguments@)
            && risk@ == host_risk_spec(call.name@, match declared_risk {
                Some(d) => Some(d@),
                None => None,
            }) && id@ == r.call_id@,
{
    let mut call = call;
    let num = decimal_string(call_seq);
    let fallback = concat2("host-", num.as_str());
    ensure_tool_call_id(&mut call, fallback);
    let call_id = match &call.id {
        Some(i) => i.clone(),
        None => String::new(),
    };
    let risk = match declared_risk {
        Some(d) => d,
        None => ToolRisk::for_tool(call.name.as_str()).as_str().to_string(),
    };
    let mut events = events;
    let ghost before = events@;
    events.push(AgentEvent::ToolRequest {
        name: call.name.clone(),
        arguments: copy_entries(call.arguments.as_slice()),
        risk,
        call_id: Some(call_id.clone()),
    });
    assert(events@.drop_last() =~= before);
    HostRequest { call, call_id, events }
}

/// The id a paused call expects back (empty when it has none).
pub open spec fn expected_id(call: ToolCall) -> Seq<char> {
    match call.id {
        Some(i) => i@,
        None => Seq::empty(),
    }
}

/// The error for a result that names another call.
pub open spec fn mismatch_message(expected: Seq<char>, got: Seq<char>) -> Seq<char> {
    "call_id mismatch: expected "@ + expected + ", got "@ + got
}

/// Check the id of a host tool result against the paused call; on a match
/// the events get the `ToolResult`.
pub fn accept_host_result(
    call: &ToolCall,
    call_id: &str,
    ok: bool,
    events: Vec<AgentEvent>,
) -> (r: Result<Vec<AgentEvent>, AgentError>)
    ensures
        expected_id(*call) == call_id@ <==> r is Ok,
        r matches Ok(ev) ==> ev@.len() == events@.len() + 1 && ev@.drop_last() == events@ && (
        ev@.last() matches AgentEvent::ToolResult { name, ok: o, call_id: Some(id) } && name@
            == call.name@ && o == ok && id@ == call_id@),
        r matches Err(AgentError::Anyhow(m)) ==> m@ == mismatch_message(
            expected_id(*call),
            call_id@,
        ),
        !(r matches Err(AgentError::Chat(_))),
{
    let expected: &str = match &call.id {
        Some(i) => i.as_str(),
        None => {
            proof {
                reveal_strlit("");
                assert(""@ =~= Seq::<char>::empty());
            }
            ""
        },
    };
    assert(expected@ == expected_id(*call));
    if !str_eq(expected, call_id) {
        let head = concat3("call_id mismatch: expected ", expected, ", got ");
        return Err(AgentError::Anyhow(concat2(head.as_str(), call_id)));
    }
    let mut events = events;
    let ghost before = events@;
    events.push(AgentEvent::ToolResult {
        name: call.name.clone(),
        ok,
        call_id: Some(call_id.to_string()),
    });
    assert(events@.drop_last() =~= before);
    Ok(events)
}

/// What the model is told about a host tool: its content when it ran, else
/// an error object naming the tool and carrying the content as detail.
pub open spec fn host_response_spec(name: Seq<char>, ok: bool, content: JsonV) -> JsonV {
    if ok {
        content
    } else {
        JsonV::Object(
            seq![
                ("error"@, JsonV::Str("tool denied or failed on host"@)),
                ("tool"@, JsonV::Str(name)),
                ("detail"@, content),
            ],
        )
    }
}

pub fn host_tool_response(name: &str, ok: bool, content: Json) -> (r: Json)
    ensures
        r@ == host_response_spec(name@, ok, content@),
{
    if ok {
        content
    } else {
        let ghost cv = content@;
        let mut o: Vec<(String, Json)> = Vec::new();
        o.push(("error".to_string(), Json::Str("tool denied or failed on host".to_string())));
        o.push(("tool".to_string(), Json::Str(name.to_string())));
        o.push(("detail".to_string(), content));
        proof {
            lemma_object_view(o);
            assert(entries_view(o@) =~= seq![
                ("error"@, JsonV::Str("tool denied or failed on host"@)),
                ("tool"@, JsonV::Str(name@)),
                ("detail"@, cv),
            ]);
        }
        Json::Object(o)
    }
}

/// A host tool call the turn is paused on, with what resuming needs.
pub struct PendingHostTool {
    pub call: ToolCall,
    /// Same-batch calls still to run after it.
    pub queued: Vec<ToolCall>,
    pub rounds_used: usize,
    /// The turn's events so far.
    pub events: Vec<AgentEvent>,
    /// The user text the turn's memory entry records.
    pub memory_user: String,
}

/// What a result from the surface does to a paused call.
pub enum HostResume {
    /// The result answers the call: the turn goes on with these events
    /// (the `ToolResult` appended) and tells the model `response`.
    Resume {
        call: ToolCall,
        queued: Vec<ToolCall>,
        rounds_used: usize,
        events: Vec<AgentEvent>,
        memory_user: String,
        response: Json,
    },
    /// The result names another call: the call stays pending, unchanged.
    Mismatch { pending: PendingHostTool, error: AgentError },
}

/// Take a host tool result for the paused call: a result for that call id
/// resumes the turn; any other id leaves the call pending and is an error.
pub fn resume_pending(pending: PendingHostTool, call_id: &str, ok: bool, content: Json) -> (r:
    HostResume)
    ensures
        r is Resume <==> expected_id(pending.call) == call_id@,
        r matches HostResume::Mismatch { pending: p, error } ==> p == pending && (error matches
            AgentError::Anyhow(m) && m@ == mismatch_message(expected_id(pending.call), call_id@)),
        r matches HostResume::Resume { call, queued, rounds_used, events, memory_user, response }
            ==> call == pending.call && queued == pending.queued && rounds_used == pending.rounds_used
            && memory_user == pending.memory_user && events@.len() == pending.events@.len() + 1
            && events@.drop_last() == pending.events@ && (events@.last() matches AgentEvent::ToolResult {
            name,
            ok: o,
            call_id: Some(id),
        } && name@ == pending.call.name@ && o == ok && id@ == call_id@) && response@
            == host_response_spec(pending.call.name@, ok, content@),
{
    let expected: &str = match &pending.call.id {
        Some(i) => i.as_str(),
        None => {
            proof {
                reveal_strlit("");
                assert(""@ =~= Seq::<char>::empty());
            }
            ""
        },
    };
    assert(expected@ == expected_id(pending.call));
    if !str_eq(expected, call_id) {
        let head = concat3("call_id mismatch: expected ", expected, ", got ");
        let error = AgentError::Anyhow(concat2(head.as_str(), call_id));
        return HostResume::Mismatch { pending, error };
    }
    let PendingHostTool { call, queued, rounds_used, events, memory_user } = pending;
    let mut events = events;
    let ghost before = events@;
    events.push(AgentEvent::ToolResult {
        name: call.name.clone(),
        ok,
        call_id: Some(call_id.to_string()),
    });
    assert(events@.drop_last() =~= before);
    let response = host_tool_response(call.name.as_str(), ok, content);
    HostResume::Resume { call, queued, rounds_used, events, memory_user, response }
}

/// Record a locally run tool: a `ToolRequest` with its built-in risk, then a
/// `ToolResult` saying whether consent let it run.
pub fn push_local_tool_events(
    events: &mut Vec<AgentEvent>,
    name: &str,
    arguments: &[(String, Json)],
    allowed: bool,
)
    ensures
        final(events)@.len() == old(events)@.len() + 2,
        final(events)@.take(old(events)@.len() as int) == old(events)@,
        final(events)@[old(events)@.len() as int] matches AgentEvent::ToolRequest {
            name: n,
            arguments: a,
            risk,
            call_id: None,
        } && n@ == name@ && entries_view(a@) == entries_view(arguments@) && risk@
            == ToolRisk::for_tool_spec(name@).name(),
        final(events)@.last() matches AgentEvent::ToolResult { name: n, ok, call_id: None } && n@
            == name@ && ok == allowed,
{
    let ghost before = events@;
    events.push(AgentEvent::ToolRequest {
        name: name.to_string(),
        arguments: copy_entries(arguments),
        risk: ToolRisk::for_tool(name).as_str().to_string(),
        call_id: None,
    });
    events.push(AgentEvent::ToolResult { name: name.to_string(), ok: allowed, call_id: None });
    assert(events@.take(before.len() as int) =~= before);
}

} // verus!
