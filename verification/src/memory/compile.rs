//! Thin context compiler.
//!
//! Resident = rolling summary + active topic (+ optional recent turns).
//! Dynamic = returned topic chunk turns, attached only on [`TopicSwitch::Return`].
use vstd::prelude::*;

use crate::memory::session::SessionMemory;
use crate::memory::summary::{
    render_turns_from, render_turns_from_exec, simple_summary, simple_summary_spec, window_start,
};
use crate::memory::turn::Turn;
use crate::text::{
    decimal, decimal_chars, lemma_seq_join_push, push_chars, push_str_chars, seq_join, string_of,
};

verus! {

/// How the latest S1 decision should shape the prompt.
#[derive(Debug, Clone, Copy, PartialEq, Eq, Structural)]
pub enum TopicSwitch {
    Continue,
    New,
    Return { chunk_index: usize },
}

/// Tunables for compilation / rendering.
#[derive(Debug, Clone, Copy, PartialEq, Eq, Structural)]
pub struct CompilerConfig {
    /// Recent turns to list under resident (0 = omit turn dump; summary still used).
    pub recent_turn_window: usize,
    /// Max chars per user/assistant side in rendered turns.
    pub max_chars_per_side: usize,
    /// Max turns copied from a returned chunk into dynamic context.
    pub max_dynamic_turns: usize,
}

impl Default for CompilerConfig {
    fn default() -> (c: Self)
        ensures
            c.recent_turn_window == 4,
            c.max_chars_per_side == 120,
            c.max_dynamic_turns == 6,
    {
        CompilerConfig { recent_turn_window: 4, max_chars_per_side: 120, max_dynamic_turns: 6 }
    }
}

#[derive(Debug)]
pub struct ResidentContext {
    pub state_summary: String,
    pub active_topic: Option<String>,
    pub recent_turns: Vec<Turn>,
}

#[derive(Debug)]
pub struct DynamicChunk {
    pub chunk_index: usize,
    pub summary: String,
    pub turns: Vec<Turn>,
}

#[derive(Debug)]
pub struct CompiledContext {
    pub resident: ResidentContext,
    pub dynamic: Option<DynamicChunk>,
}

/// Numbered turn lines joined by newlines (numbering from 1).
pub open spec fn format_turns_spec(turns: Seq<Turn>, max: nat) -> Seq<char> {
    render_turns_from(turns, 0, max)
}

/// Number of trailing items kept when at most `cap` of `len` are kept.
pub open spec fn tail_start(len: nat, cap: nat) -> nat {
    window_start(len, cap)
}

/// The turns of chunk `ci` that a `Return` attaches: its turn range (empty
/// when the range is not within the stored turns), cut to the last
/// `max_dynamic_turns`.
pub open spec fn dynamic_turns_spec(memory: SessionMemory, ci: int, cap: nat) -> Seq<Turn> {
    let c = memory.chunks@[ci];
    let range = if c.turn_start <= c.turn_end && c.turn_end <= memory.turns@.len() {
        memory.turns@.subrange(c.turn_start as int, c.turn_end as int)
    } else {
        Seq::empty()
    };
    range.subrange(tail_start(range.len(), cap) as int, range.len() as int)
}

/// The resident state summary: the stored summary, or one rebuilt from the
/// turns when none is stored yet.
pub open spec fn state_summary_spec(memory: SessionMemory, cfg: CompilerConfig) -> Seq<char> {
    if memory.summary@.len() == 0 && memory.turns@.len() != 0 {
        simple_summary_spec(memory.turns@, memory.recent_n as nat, cfg.max_chars_per_side as nat)
    } else {
        memory.summary@
    }
}

/// The recent turns listed under resident.
pub open spec fn recent_turns_spec(memory: SessionMemory, cfg: CompilerConfig) -> Seq<Turn> {
    let window = if cfg.recent_turn_window <= memory.recent_n {
        cfg.recent_turn_window
    } else {
        memory.recent_n
    };
    if window == 0 {
        Seq::empty()
    } else {
        memory.turns@.subrange(
            window_start(memory.turns@.len(), window as nat) as int,
            memory.turns@.len() as int,
        )
    }
}

/// The active topic: the current chunk's summary when it exists and is non-empty.
pub open spec fn active_topic_spec(memory: SessionMemory) -> Option<Seq<char>> {
    match memory.current_chunk {
        Some(i) => if i < memory.chunks@.len() && memory.chunks@[i as int].summary@.len() > 0 {
            Some(memory.chunks@[i as int].summary@)
        } else {
            None
        },
        None => None,
    }
}

/// The text block rendered for a returned chunk.
pub open spec fn dynamic_block(d: DynamicChunk, max: nat) -> Seq<char> {
    let head = "Returned topic context [chunk "@ + decimal(d.chunk_index as nat) + "]: "@
        + d.summary@;
    if d.turns@.len() == 0 {
        head
    } else {
        head + "\n"@ + format_turns_spec(d.turns@, max)
    }
}

/// The parts of the rendered notes, in order.
pub open spec fn notes_parts(c: CompiledContext, max: nat) -> Seq<Seq<char>> {
    let p1: Seq<Seq<char>> = match c.resident.active_topic {
        Some(t) => if t@.len() > 0 {
            seq!["Active topic: "@ + t@]
        } else {
            Seq::empty()
        },
        None => Seq::empty(),
    };
    let p2: Seq<Seq<char>> = if c.resident.state_summary@.len() > 0 {
        seq!["Session summary (recent):\n"@ + c.resident.state_summary@]
    } else {
        Seq::empty()
    };
    let p3: Seq<Seq<char>> = if c.resident.recent_turns@.len() > 0 {
        seq!["Recent turns:\n"@ + format_turns_spec(c.resident.recent_turns@, max)]
    } else {
        Seq::empty()
    };
    let p4: Seq<Seq<char>> = match c.dynamic {
        Some(d) => seq![dynamic_block(d, max)],
        None => Seq::empty(),
    };
    p1 + p2 + p3 + p4
}

/// Opening line of the rendered notes.
pub open spec fn notes_header() -> Seq<char> {
    "You are loco-bot, a local on-device assistant.\n\n"@
}

impl CompiledContext {
    /// Nothing would be injected.
    pub open spec fn is_empty_spec(&self) -> bool {
        &&& self.resident.state_summary@.len() == 0
        &&& self.resident.active_topic.is_none()
        &&& self.resident.recent_turns@.len() == 0
        &&& self.dynamic.is_none()
    }

    pub fn is_empty(&self) -> (r: bool)
        ensures
            r == self.is_empty_spec(),
    {
        self.resident.state_summary.as_str().is_empty() && self.resident.active_topic.is_none()
            && self.resident.recent_turns.len() == 0 && self.dynamic.is_none()
    }

    /// Plain-text notes for in-band / system preamble injection.
    pub fn render_notes(&self, cfg: &CompilerConfig) -> (r: Option<String>)
        ensures
            r.is_none() <==> notes_parts(*self, cfg.max_chars_per_side as nat).len() == 0,
            r matches Some(s) ==> s@ == notes_header() + seq_join(
                notes_parts(*self, cfg.max_chars_per_side as nat),
                "\n\n"@,
            ),
    {
        let ghost parts = notes_parts(*self, cfg.max_chars_per_side as nat);
        let ghost mut done: Seq<Seq<char>> = Seq::empty();
        let mut body: Vec<char> = Vec::new();
        let mut n_parts: usize = 0;

        match &self.resident.active_topic {
            Some(topic) => {
                if !topic.as_str().is_empty() {
                    let mut part: Vec<char> = Vec::new();
                    push_str_chars(&mut part, "Active topic: ");
                    push_str_chars(&mut part, topic.as_str());
                    proof {
                        lemma_seq_join_push(done, "\n\n"@, part@);
                        done = done.push(part@);
                    }
                    push_chars(&mut body, part.as_slice());
                    n_parts = n_parts + 1;
                }
            },
            None => {},
        }

        if !self.resident.state_summary.as_str().is_empty() {
            let mut part: Vec<char> = Vec::new();
            push_str_chars(&mut part, "Session summary (recent):\n");
            push_str_chars(&mut part, self.resident.state_summary.as_str());
            proof {
                lemma_seq_join_push(done, "\n\n"@, part@);
                done = done.push(part@);
            }
            if n_parts > 0 {
                push_str_chars(&mut body, "\n\n");
            }
            push_chars(&mut body, part.as_slice());
            n_parts = n_parts + 1;
        }

        if self.resident.recent_turns.len() > 0 {
            let mut part: Vec<char> = Vec::new();
            push_str_chars(&mut part, "Recent turns:\n");
            let rendered = render_turns_from_exec(
                self.resident.recent_turns.as_slice(),
                0,
                cfg.max_chars_per_side,
            );
            push_chars(&mut part, rendered.as_slice());
            proof {
                lemma_seq_join_push(done, "\n\n"@, part@);
                done = done.push(part@);
            }
            if n_parts > 0 {
                push_str_chars(&mut body, "\n\n");
            }
            push_chars(&mut body, part.as_slice());
            n_parts = n_parts + 1;
        }

        match &self.dynamic {
            Some(d) => {
                let mut part: Vec<char> = Vec::new();
                push_str_chars(&mut part, "Returned topic context [chunk ");
                let num = decimal_chars(d.chunk_index as u64);
                push_chars(&mut part, num.as_slice());
                push_str_chars(&mut part, "]: ");
                push_str_chars(&mut part, d.summary.as_str());
                if d.turns.len() > 0 {
                    push_str_chars(&mut part, "\n");
                    let rendered = render_turns_from_exec(
                        d.turns.as_slice(),
                        0,
                        cfg.max_chars_per_side,
                    );
                    push_chars(&mut part, rendered.as_slice());
                }
                proof {
                    lemma_seq_join_push(done, "\n\n"@, part@);
                    done = done.push(part@);
                }
                if n_parts > 0 {
                    push_str_chars(&mut body, "\n\n");
                }
                push_chars(&mut body, part.as_slice());
                n_parts = n_parts + 1;
            },
            None => {},
        }

        assert(done =~= parts);
        if n_parts == 0 {
            return None;
        }
        let mut out: Vec<char> = Vec::new();
        push_str_chars(&mut out, "You are loco-bot, a local on-device assistant.\n\n");
        push_chars(&mut out, body.as_slice());
        Some(string_of(out.as_slice()))
    }
}

/// Copies a run of turns.
fn copy_turns(turns: &[Turn], start: usize, end: usize) -> (r: Vec<Turn>)
    requires
        start <= end <= turns.len(),
    ensures
        r@ == turns@.subrange(start as int, end as int),
{
    let mut out: Vec<Turn> = Vec::new();
    let mut i: usize = start;
    while i < end
        invariant
            start <= i <= end,
            end <= turns.len(),
            out@ == turns@.subrange(start as int, i as int),
        decreases end - i,
    {
        out.push(turns[i].clone());
        assert(turns@.subrange(start as int, i as int).push(turns@[i as int]) =~= turns@.subrange(
            start as int,
            i + 1,
        ));
        i = i + 1;
    }
    out
}

/// What `compile` builds from a memory, a topic switch and a configuration.
pub open spec fn compiled_spec(
    memory: SessionMemory,
    switch: TopicSwitch,
    cfg: CompilerConfig,
    c: CompiledContext,
) -> bool {
    &&& c.resident.state_summary@ == state_summary_spec(memory, cfg)
    &&& c.resident.recent_turns@ == recent_turns_spec(memory, cfg)
    &&& match c.resident.active_topic {
        Some(t) => active_topic_spec(memory) == Some(t@),
        None => active_topic_spec(memory).is_none(),
    }
    &&& match switch {
        TopicSwitch::Return { chunk_index } => if chunk_index < memory.chunks@.len() {
            c.dynamic matches Some(d) && d.chunk_index == chunk_index && d.summary
                == memory.chunks@[chunk_index as int].summary && d.turns@ == dynamic_turns_spec(
                memory,
                chunk_index as int,
                cfg.max_dynamic_turns as nat,
            )
        } else {
            c.dynamic.is_none()
        },
        _ => c.dynamic.is_none(),
    }
}

/// The parts of the notes rendered from what `compile` builds for a memory,
/// a topic switch and a configuration.
pub open spec fn context_parts(memory: SessionMemory, switch: TopicSwitch, cfg: CompilerConfig) -> Seq<
    Seq<char>,
> {
    let max = cfg.max_chars_per_side as nat;
    let p1: Seq<Seq<char>> = match active_topic_spec(memory) {
        Some(t) => if t.len() > 0 {
            seq!["Active topic: "@ + t]
        } else {
            Seq::empty()
        },
        None => Seq::empty(),
    };
    let summary = state_summary_spec(memory, cfg);
    let p2: Seq<Seq<char>> = if summary.len() > 0 {
        seq!["Session summary (recent):\n"@ + summary]
    } else {
        Seq::empty()
    };
    let recent = recent_turns_spec(memory, cfg);
    let p3: Seq<Seq<char>> = if recent.len() > 0 {
        seq!["Recent turns:\n"@ + format_turns_spec(recent, max)]
    } else {
        Seq::empty()
    };
    let p4: Seq<Seq<char>> = match switch {
        TopicSwitch::Return { chunk_index } => if chunk_index < memory.chunks@.len() {
            let turns = dynamic_turns_spec(memory, chunk_index as int, cfg.max_dynamic_turns as nat);
            let head = "Returned topic context [chunk "@ + decimal(chunk_index as nat) + "]: "@
                + memory.chunks@[chunk_index as int].summary@;
            seq![
                if turns.len() == 0 {
                    head
                } else {
                    head + "\n"@ + format_turns_spec(turns, max)
                },
            ]
        } else {
            Seq::empty()
        },
        _ => Seq::empty(),
    };
    p1 + p2 + p3 + p4
}

/// The notes rendered for a memory, a topic switch and a configuration:
/// none when there is nothing to inject.
pub open spec fn context_notes(memory: SessionMemory, switch: TopicSwitch, cfg: CompilerConfig) -> Option<
    Seq<char>,
> {
    let parts = context_parts(memory, switch, cfg);
    if parts.len() == 0 {
        None
    } else {
        Some(notes_header() + seq_join(parts, "\n\n"@))
    }
}

/// What `compile` builds renders to the parts of [`context_parts`].
pub proof fn lemma_compiled_parts(
    memory: SessionMemory,
    switch: TopicSwitch,
    cfg: CompilerConfig,
    c: CompiledContext,
)
    requires
        compiled_spec(memory, switch, cfg, c),
    ensures
        notes_parts(c, cfg.max_chars_per_side as nat) == context_parts(memory, switch, cfg),
{
    assert(notes_parts(c, cfg.max_chars_per_side as nat) =~= context_parts(memory, switch, cfg));
}

/// Assemble resident (+ optional dynamic) context for this turn.
pub fn compile(memory: &SessionMemory, switch: TopicSwitch, cfg: &CompilerConfig) -> (c:
    CompiledContext)
    ensures
        compiled_spec(*memory, switch, *cfg, c),
{
    let window = if cfg.recent_turn_window <= memory.recent_n {
        cfg.recent_turn_window
    } else {
        memory.recent_n
    };
    let len = memory.turns.len();
    let recent_turns = if window == 0 {
        Vec::new()
    } else {
        let start = if len >= window {
            len - window
        } else {
            0
        };
        copy_turns(memory.turns.as_slice(), start, len)
    };

    let active_topic = match memory.current_chunk {
        Some(i) => {
            if i < memory.chunks.len() && !memory.chunks[i].summary.as_str().is_empty() {
                Some(memory.chunks[i].summary.clone())
            } else {
                None
            }
        },
        None => None,
    };

    let state_summary = if memory.summary.as_str().is_empty() && len != 0 {
        simple_summary(memory.turns.as_slice(), memory.recent_n, cfg.max_chars_per_side)
    } else {
        memory.summary.clone()
    };

    let resident = ResidentContext { state_summary, active_topic, recent_turns };

    let dynamic = match switch {
        TopicSwitch::Return { chunk_index } => {
            if chunk_index < memory.chunks.len() {
                let chunk = &memory.chunks[chunk_index];
                let (lo, hi) = if chunk.turn_start <= chunk.turn_end && chunk.turn_end <= len {
                    (chunk.turn_start, chunk.turn_end)
                } else {
                    (0, 0)
                };
                let n = hi - lo;
                let skip = if n >= cfg.max_dynamic_turns {
                    n - cfg.max_dynamic_turns
                } else {
                    0
                };
                let turns = copy_turns(memory.turns.as_slice(), lo + skip, hi);
                proof {
                    let range = if chunk.turn_start <= chunk.turn_end && chunk.turn_end <= len {
                        memory.turns@.subrange(chunk.turn_start as int, chunk.turn_end as int)
                    } else {
                        Seq::empty()
                    };
                    assert(range.subrange(
                        tail_start(range.len(), cfg.max_dynamic_turns as nat) as int,
                        range.len() as int,
                    ) =~= memory.turns@.subrange(lo + skip, hi as int));
                }
                Some(DynamicChunk { chunk_index, summary: chunk.summary.clone(), turns })
            } else {
                None
            }
        },
        TopicSwitch::Continue => None,
        TopicSwitch::New => None,
    };

    CompiledContext { resident, dynamic }
}

/// Numbered turns rendered one per line (each side cut to `max_chars`).
pub fn format_turns(turns: &[Turn], max_chars: usize) -> (r: String)
    ensures
        r@ == format_turns_spec(turns@, max_chars as nat),
{
    let v = render_turns_from_exec(turns, 0, max_chars);
    string_of(v.as_slice())
}


/// Nothing is rendered exactly when nothing would be injected (for contexts
/// whose active topic, when present, is non-empty, as `compile` builds them).
pub proof fn law_notes_absent_iff_empty(c: CompiledContext, max: nat)
    requires
        c.resident.active_topic matches Some(t) ==> t@.len() > 0,
    ensures
        notes_parts(c, max).len() == 0 <==> c.is_empty_spec(),
{
}

/// A compiled context never has an empty active topic.
pub proof fn law_compiled_topic_non_empty(
    memory: SessionMemory,
    switch: TopicSwitch,
    cfg: CompilerConfig,
    c: CompiledContext,
)
    requires
        compiled_spec(memory, switch, cfg, c),
    ensures
        c.resident.active_topic matches Some(t) ==> t@.len() > 0,
{
}

/// On a return to an existing chunk the notes are always rendered and end
/// with that chunk's block: its index, summary and last turns.
pub proof fn law_return_injects_chunk(
    memory: SessionMemory,
    chunk_index: usize,
    cfg: CompilerConfig,
    c: CompiledContext,
)
    requires
        chunk_index < memory.chunks@.len(),
        compiled_spec(memory, TopicSwitch::Return { chunk_index }, cfg, c),
    ensures
        notes_parts(c, cfg.max_chars_per_side as nat).len() > 0,
        c.dynamic matches Some(d) && notes_parts(c, cfg.max_chars_per_side as nat).last()
            == dynamic_block(d, cfg.max_chars_per_side as nat) && d.chunk_index == chunk_index
            && d.summary == memory.chunks@[chunk_index as int].summary && d.turns@
            == dynamic_turns_spec(memory, chunk_index as int, cfg.max_dynamic_turns as nat),
{
}


/// The resident recent turns are a suffix of the stored turns, no longer
/// than the configured window nor the memory's own window.
pub proof fn law_recent_turns_bounded(memory: SessionMemory, cfg: CompilerConfig)
    ensures
        recent_turns_spec(memory, cfg).len() <= cfg.recent_turn_window,
        recent_turns_spec(memory, cfg).len() <= memory.recent_n,
        memory.turns@.len() >= recent_turns_spec(memory, cfg).len(),
        recent_turns_spec(memory, cfg) == memory.turns@.subrange(
            memory.turns@.len() - recent_turns_spec(memory, cfg).len(),
            memory.turns@.len() as int,
        ),
{
}

} // verus!
