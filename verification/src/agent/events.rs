//! Events emitted during one agent turn (for any UI shell).
use vstd::prelude::*;

use crate::agent::consent::ToolRisk;
use crate::engine::chat::ChatError;
use crate::engine::json::Json;
use crate::text::{concat3, decimal, decimal_chars, push_chars, push_str_chars, string_of};

verus! {

/// One turn's collected outcome.
#[derive(Debug, PartialEq)]
pub struct TurnOutcome {
    pub events: Vec<AgentEvent>,
    /// Final user-visible text (clarify question, ack, or model reply).
    pub reply_text: String,
}

/// Streaming-friendly events produced while handling a user turn.
#[derive(Debug, PartialEq)]
pub enum AgentEvent {
    /// Topic clarification required before calling the chat model.
    Clarify { question: String, choices: Vec<ClarifyChoice> },
    /// Short acknowledgement (e.g. after bare clarify reply).
    Ack { text: String },
    /// Topic switch applied for this turn.
    Topic { kind: String, chunk_index: Option<usize> },
    /// Context notes were injected into the model prompt.
    Context { chars: usize, has_dynamic: bool },
    /// Model requested a tool; shells may show this before/after consent.
    ToolRequest {
        name: String,
        arguments: Vec<(String, Json)>,
        risk: String,
        /// Present when the surface must fulfill this call (`awaiting_tool`).
        call_id: Option<String>,
    },
    ToolResult { name: String, ok: bool, call_id: Option<String> },
    /// Incremental model text (reserved; non-streaming turns may omit).
    Token { delta: String },
    Done { text: String },
}

#[derive(Debug, PartialEq, Eq)]
pub struct ClarifyChoice {
    pub label: String,
    /// 1-based index for numbered replies, when applicable.
    pub index: usize,
}

/// Where a tool runs. Surfaces own `host`; loco-bot keeps portable `local` tools.
#[derive(Debug, Clone, Copy, PartialEq, Eq, Structural)]
pub enum ToolExecKind {
    Host,
    Local,
}

/// Outbound line from `loco serve` → surface.
#[derive(Debug, PartialEq)]
pub enum ServeServerMessage {
    Done { outcome: TurnOutcome },
    AwaitingTool { call_id: String, outcome: TurnOutcome },
}

impl ServeServerMessage {
    pub fn done(outcome: TurnOutcome) -> (m: Self)
        ensures
            m == (ServeServerMessage::Done { outcome }),
    {
        ServeServerMessage::Done { outcome }
    }

    pub fn awaiting_tool(call_id: String, outcome: TurnOutcome) -> (m: Self)
        ensures
            m == (ServeServerMessage::AwaitingTool { call_id, outcome }),
    {
        ServeServerMessage::AwaitingTool { call_id, outcome }
    }
}

/// Progress of a serve/agent turn that may pause for host-executed tools.
#[derive(Debug, PartialEq)]
pub enum AgentTurnProgress {
    Done(TurnOutcome),
    AwaitingHostTool { call_id: String, outcome: TurnOutcome },
}

impl AgentTurnProgress {
    pub fn into_serve_message(self) -> (m: ServeServerMessage)
        ensures
            m == match self {
                AgentTurnProgress::Done(outcome) => ServeServerMessage::Done { outcome },
                AgentTurnProgress::AwaitingHostTool { call_id, outcome } => {
                    ServeServerMessage::AwaitingTool { call_id, outcome }
                },
            },
    {
        match self {
            AgentTurnProgress::Done(outcome) => ServeServerMessage::done(outcome),
            AgentTurnProgress::AwaitingHostTool { call_id, outcome } => {
                ServeServerMessage::awaiting_tool(call_id, outcome)
            },
        }
    }
}

/// Configuration for constructing an agent session.
#[derive(Debug)]
pub struct AgentSessionConfig {
    pub no_memory: bool,
    pub no_tools: bool,
    pub no_topic: bool,
    /// Sandbox root for fs_* tools. Relative paths resolve under this directory.
    pub fs_root: Option<String>,
    /// Highest tool risk allowed without an interactive prompt.
    pub consent_ceiling: ToolRisk,
}

impl Default for AgentSessionConfig {
    fn default() -> (c: Self)
        ensures
            !c.no_memory && !c.no_tools && !c.no_topic,
            c.fs_root.is_none(),
            c.consent_ceiling == ToolRisk::Low,
    {
        AgentSessionConfig {
            no_memory: false,
            no_tools: false,
            no_topic: false,
            fs_root: None,
            consent_ceiling: ToolRisk::Low,
        }
    }
}

/// Why an agent turn failed.
#[derive(Debug, PartialEq, Eq)]
pub enum AgentError {
    /// A failure described by its message.
    Anyhow(String),
    Chat(ChatError),
}

impl AgentError {
    pub open spec fn message_spec(&self) -> Seq<char> {
        match self {
            AgentError::Anyhow(m) => m@,
            AgentError::Chat(e) => e.message_spec(),
        }
    }

    /// The error text shown to the user (that of the wrapped error).
    pub fn message(&self) -> (r: String)
        ensures
            r@ == self.message_spec(),
    {
        match self {
            AgentError::Anyhow(m) => m.clone(),
            AgentError::Chat(e) => e.message(),
        }
    }
}

/// The line a shell logs for an event (none for clarify, ack, token and
/// done, which it shows otherwise).
pub open spec fn event_log_spec(e: AgentEvent) -> Option<Seq<char>> {
    match e {
        AgentEvent::Topic { kind, chunk_index } => match chunk_index {
            Some(i) => Some("[topic: "@ + kind@ + " #"@ + decimal(i as nat) + "]"@),
            None => Some("[topic: "@ + kind@ + "]"@),
        },
        AgentEvent::Context { chars, has_dynamic } => Some(
            "[context: resident"@ + (if has_dynamic {
                "+dynamic"@
            } else {
                Seq::empty()
            }) + " "@ + decimal(chars as nat) + " chars]"@,
        ),
        AgentEvent::ToolRequest { name, risk, .. } => Some(
            "[tool request: "@ + name@ + " risk="@ + risk@ + "]"@,
        ),
        AgentEvent::ToolResult { name, ok, .. } => Some(
            "[tool result: "@ + name@ + " ok="@ + (if ok {
                "true"@
            } else {
                "false"@
            }) + "]"@,
        ),
        _ => None,
    }
}

pub fn event_log_line(e: &AgentEvent) -> (r: Option<String>)
    ensures
        match r {
            Some(l) => event_log_spec(*e) == Some(l@),
            None => event_log_spec(*e).is_none(),
        },
{
    match e {
        AgentEvent::Topic { kind, chunk_index } => match chunk_index {
            Some(i) => {
                let mut out: Vec<char> = Vec::new();
                push_str_chars(&mut out, "[topic: ");
                push_str_chars(&mut out, kind.as_str());
                push_str_chars(&mut out, " #");
                let d = decimal_chars(*i as u64);
                push_chars(&mut out, d.as_slice());
                push_str_chars(&mut out, "]");
                Some(string_of(out.as_slice()))
            },
            None => Some(concat3("[topic: ", kind.as_str(), "]")),
        },
        AgentEvent::Context { chars, has_dynamic } => {
            let mut out: Vec<char> = Vec::new();
            push_str_chars(&mut out, "[context: resident");
            if *has_dynamic {
                push_str_chars(&mut out, "+dynamic");
            } else {
                assert(out@ + Seq::<char>::empty() =~= out@);
            }
            push_str_chars(&mut out, " ");
            let d = decimal_chars(*chars as u64);
            push_chars(&mut out, d.as_slice());
            push_str_chars(&mut out, " chars]");
            Some(string_of(out.as_slice()))
        },
        AgentEvent::ToolRequest { name, risk, .. } => {
            let mut out: Vec<char> = Vec::new();
            push_str_chars(&mut out, "[tool request: ");
            push_str_chars(&mut out, name.as_str());
            push_str_chars(&mut out, " risk=");
            push_str_chars(&mut out, risk.as_str());
            push_str_chars(&mut out, "]");
            Some(string_of(out.as_slice()))
        },
        AgentEvent::ToolResult { name, ok, .. } => {
            let mut out: Vec<char> = Vec::new();
            push_str_chars(&mut out, "[tool result: ");
            push_str_chars(&mut out, name.as_str());
            push_str_chars(&mut out, " ok=");
            if *ok {
                push_str_chars(&mut out, "true");
            } else {
                push_str_chars(&mut out, "false");
            }
            push_str_chars(&mut out, "]");
            Some(string_of(out.as_slice()))
        },
        _ => None,
    }
}

} // verus!
