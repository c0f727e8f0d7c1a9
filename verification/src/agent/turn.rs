//! The memory-side decisions of one agent turn: answering a pending
//! clarification, applying a topic-resolve outcome, and the events and
//! context notes that follow from them.
use vstd::prelude::*;

use crate::agent::events::{AgentEvent, ClarifyChoice, TurnOutcome};
use crate::engine::backend::{ascii_lower, ascii_lowercase};
use crate::memory::compile::{
    compile, context_notes, lemma_compiled_parts, CompilerConfig, TopicSwitch,
};
use crate::memory::pending::{PendingCandidate, PendingClarification};
use crate::memory::session::{past_indices, SessionMemory};
use crate::resolve::{
    match_clarification, match_spec, parse_usize_spec, unspecified_return_spec, ClarifyAction,
    ClarifyCandidate,
    Clarification, ResolveOutcome,
};
use crate::text::{chars_eq, chars_of, push_str_chars, string_of, trim, trim_spec};

verus! {

/// How a resolve step shapes the rest of the turn.
#[derive(Debug, PartialEq)]
pub enum ResolveApply {
    /// Carry on to the model with this topic switch.
    Switch(TopicSwitch),
    /// Ask the user (the text is the question).
    Clarify(String),
    /// Acknowledge a bare clarification answer without calling the model.
    Ack(String),
}

// ---------------------------------------------------------------------------
// Pending clarification <-> clarification.
// ---------------------------------------------------------------------------

/// The action a stored candidate stands for.
pub open spec fn pending_action(c: PendingCandidate) -> ClarifyAction {
    match c.return_chunk {
        None => ClarifyAction::ContinueCurrent,
        Some(chunk_index) => ClarifyAction::ReturnTo { chunk_index },
    }
}

/// The stored chunk of a clarification action.
pub open spec fn action_chunk(a: ClarifyAction) -> Option<usize> {
    match a {
        ClarifyAction::ContinueCurrent => None,
        ClarifyAction::ReturnTo { chunk_index } => Some(chunk_index),
    }
}

/// The clarification candidates of a stored clarification.
pub open spec fn candidates_of_pending(cs: Seq<PendingCandidate>) -> Seq<ClarifyCandidate> {
    Seq::new(cs.len(), |i: int| ClarifyCandidate { label: cs[i].label, action: pending_action(cs[i]) })
}

/// Store a clarification with the session memory.
pub fn clarification_to_pending(c: &Clarification) -> (p: PendingClarification)
    ensures
        p.question == c.question,
        p.candidates@.len() == c.candidates@.len(),
        forall|i: int|
            0 <= i < p.candidates@.len() ==> (#[trigger] p.candidates@[i]).label
                == c.candidates@[i].label && p.candidates@[i].return_chunk == action_chunk(
                c.candidates@[i].action,
            ),
{
    let mut out: Vec<PendingCandidate> = Vec::new();
    let mut i: usize = 0;
    while i < c.candidates.len()
        invariant
            i <= c.candidates.len(),
            out@.len() == i,
            forall|k: int|
                0 <= k < i ==> (#[trigger] out@[k]).label == c.candidates@[k].label
                    && out@[k].return_chunk == action_chunk(c.candidates@[k].action),
        decreases c.candidates.len() - i,
    {
        let x = &c.candidates[i];
        let return_chunk = match x.action {
            ClarifyAction::ContinueCurrent => None,
            ClarifyAction::ReturnTo { chunk_index } => Some(chunk_index),
        };
        out.push(PendingCandidate { label: x.label.clone(), return_chunk });
        i = i + 1;
    }
    PendingClarification { question: c.question.clone(), candidates: out }
}

/// Rebuild the clarification from its stored form.
pub fn pending_to_clarification(p: &PendingClarification) -> (c: Clarification)
    ensures
        c.question == p.question,
        c.candidates@ == candidates_of_pending(p.candidates@),
{
    let mut out: Vec<ClarifyCandidate> = Vec::new();
    let mut i: usize = 0;
    while i < p.candidates.len()
        invariant
            i <= p.candidates.len(),
            out@ == candidates_of_pending(p.candidates@).take(i as int),
        decreases p.candidates.len() - i,
    {
        let x = &p.candidates[i];
        let action = match x.return_chunk {
            None => ClarifyAction::ContinueCurrent,
            Some(chunk_index) => ClarifyAction::ReturnTo { chunk_index },
        };
        out.push(ClarifyCandidate { label: x.label.clone(), action });
        assert(out@ =~= candidates_of_pending(p.candidates@).take(i + 1));
        i = i + 1;
    }
    assert(out@ =~= candidates_of_pending(p.candidates@));
    Clarification { question: p.question.clone(), candidates: out }
}

/// Numbered choices of the pending clarification (empty when none is pending).
pub fn pending_choices(memory: &SessionMemory) -> (r: Vec<ClarifyChoice>)
    ensures
        match memory.pending_clarify {
            None => r@.len() == 0,
            Some(p) => {
                &&& r@.len() == p.candidates@.len()
                &&& forall|i: int|
                    0 <= i < r@.len() ==> (#[trigger] r@[i]).label == p.candidates@[i].label
                        && r@[i].index == i + 1
            },
        },
{
    let mut out: Vec<ClarifyChoice> = Vec::new();
    match &memory.pending_clarify {
        None => {},
        Some(p) => {
            let mut i: usize = 0;
            while i < p.candidates.len()
                invariant
                    i <= p.candidates.len(),
                    out@.len() == i,
                    forall|k: int|
                        0 <= k < i ==> (#[trigger] out@[k]).label == p.candidates@[k].label
                            && out@[k].index == k + 1,
                decreases p.candidates.len() - i,
            {
                out.push(ClarifyChoice { label: p.candidates[i].label.clone(), index: i + 1 });
                i = i + 1;
            }
        },
    }
    out
}

// ---------------------------------------------------------------------------
// Applying decisions to memory.
// ---------------------------------------------------------------------------

/// The topic switch of a clarification answer.
pub open spec fn switch_for_action(a: ClarifyAction) -> TopicSwitch {
    match a {
        ClarifyAction::ContinueCurrent => TopicSwitch::Continue,
        ClarifyAction::ReturnTo { chunk_index } => TopicSwitch::Return { chunk_index },
    }
}

/// `after` is `before` with the clarification answer `a` applied.
pub open spec fn action_applied(before: SessionMemory, after: SessionMemory, a: ClarifyAction) -> bool {
    match a {
        ClarifyAction::ContinueCurrent => after == before,
        ClarifyAction::ReturnTo { chunk_index } => if chunk_index < before.chunks@.len() {
            SessionMemory::switched_to(before, after, chunk_index)
        } else {
            after == before
        },
    }
}

/// Apply a clarification answer to memory.
pub fn apply_clarify_action(memory: &mut SessionMemory, action: ClarifyAction) -> (s: TopicSwitch)
    ensures
        s == switch_for_action(action),
        action_applied(*old(memory), *final(memory), action),
{
    match action {
        ClarifyAction::ContinueCurrent => TopicSwitch::Continue,
        ClarifyAction::ReturnTo { chunk_index } => {
            memory.return_to_chunk(chunk_index);
            TopicSwitch::Return { chunk_index }
        },
    }
}

/// The reply is only a number or exactly a label (ASCII case ignored).
pub open spec fn bare_reply_spec(user: Seq<char>, cs: Seq<PendingCandidate>) -> bool {
    let t = trim_spec(user);
    parse_usize_spec(t) is Some || exists|i: int|
        0 <= i < cs.len() && ascii_lower(#[trigger] cs[i].label@) == ascii_lower(t)
}

/// Whether the reply is a bare pick (number or exact label) rather than a
/// message that also asks something.
pub fn is_bare_clarify_reply(user: &str, pending: &PendingClarification) -> (r: bool)
    ensures
        r == bare_reply_spec(user@, pending.candidates@),
{
    let t = trim(user);
    if crate::resolve::parses_as_usize(t) {
        return true;
    }
    let tc = chars_of(t);
    let tl = ascii_lowercase(tc.as_slice());
    let mut i: usize = 0;
    while i < pending.candidates.len()
        invariant
            i <= pending.candidates.len(),
            tl@ == ascii_lower(t@),
            t@ == trim_spec(user@),
            parse_usize_spec(t@) is None,
            forall|k: int|
                0 <= k < i ==> ascii_lower(#[trigger] pending.candidates@[k].label@) != ascii_lower(
                    t@,
                ),
        decreases pending.candidates.len() - i,
    {
        let lc = chars_of(pending.candidates[i].label.as_str());
        let ll = ascii_lowercase(lc.as_slice());
        if chars_eq(ll.as_slice(), tl.as_slice()) {
            assert(ascii_lower(pending.candidates@[i as int].label@) == ascii_lower(t@));
            return true;
        }
        i = i + 1;
    }
    false
}

/// The label shown back for an answer: that of the first candidate with the
/// chosen action.
pub open spec fn ack_label(cs: Seq<ClarifyCandidate>, a: ClarifyAction) -> Seq<char>
    decreases cs.len(),
{
    if cs.len() == 0 {
        "selected"@
    } else if cs[0].action == a {
        cs[0].label@
    } else {
        ack_label(cs.drop_first(), a)
    }
}

/// Acknowledgement text for returning to a topic.
pub open spec fn ack_text(label: Seq<char>) -> Seq<char> {
    "了解です。「"@ + label + "」に戻ります。続けてどうぞ。"@
}

fn ack_label_exec(cs: &[ClarifyCandidate], a: ClarifyAction) -> (r: String)
    ensures
        r@ == ack_label(cs@, a),
{
    let mut i: usize = 0;
    assert(cs@.skip(0) =~= cs@);
    while i < cs.len()
        invariant
            i <= cs.len(),
            ack_label(cs@, a) == ack_label(cs@.skip(i as int), a),
        decreases cs.len() - i,
    {
        assert(cs@.skip(i as int).drop_first() =~= cs@.skip(i + 1));
        if cs[i].action == a {
            return cs[i].label.clone();
        }
        i = i + 1;
    }
    "selected".to_owned()
}

/// What answering a pending clarification does: `None` when nothing is
/// pending; otherwise the matched answer is applied (and the pending
/// question dropped), or the question is asked again.
pub open spec fn pending_reply_spec(
    before: SessionMemory,
    after: SessionMemory,
    user: Seq<char>,
    r: Option<ResolveApply>,
) -> bool {
    match before.pending_clarify {
        None => r.is_none() && after == before,
        Some(p) => {
            let cs = candidates_of_pending(p.candidates@);
            match match_spec(user, cs) {
                None => r == Some(ResolveApply::Clarify(p.question)) && after == before,
                Some(a) => {
                    &&& after.pending_clarify.is_none()
                    &&& exists|mid: SessionMemory|
                        {
                            &&& action_applied(before, mid, a)
                            &&& after == SessionMemory { pending_clarify: None, ..mid }
                        }
                    &&& if bare_reply_spec(user, p.candidates@) {
                        r matches Some(ResolveApply::Ack(msg)) && msg@ == ack_text(ack_label(cs, a))
                    } else {
                        r == Some(ResolveApply::Switch(switch_for_action(a)))
                    }
                },
            }
        },
    }
}

/// Answer a pending clarification with the user's reply (the first half of
/// resolving a turn). `None` means nothing was pending.
pub fn apply_pending_reply(memory: &mut SessionMemory, user: &str) -> (r: Option<ResolveApply>)
    ensures
        pending_reply_spec(*old(memory), *final(memory), user@, r),
{
    let pending = match &memory.pending_clarify {
        None => {
            return None;
        },
        Some(p) => p.clone(),
    };
    let clarification = pending_to_clarification(&pending);
    match match_clarification(user, &clarification) {
        Some(action) => {
            let label = ack_label_exec(clarification.candidates.as_slice(), action);
            let switch = apply_clarify_action(memory, action);
            let ghost mid = *memory;
            memory.clear_pending_clarify();
            assert(*memory == SessionMemory { pending_clarify: None, ..mid });
            if is_bare_clarify_reply(user, &pending) {
                let mut msg: Vec<char> = Vec::new();
                push_str_chars(&mut msg, "了解です。「");
                push_str_chars(&mut msg, label.as_str());
                push_str_chars(&mut msg, "」に戻ります。続けてどうぞ。");
                return Some(ResolveApply::Ack(string_of(msg.as_slice())));
            }
            Some(ResolveApply::Switch(switch))
        },
        None => Some(ResolveApply::Clarify(pending.question)),
    }
}

/// The first `n` characters of `s` (all of them when it is shorter).
pub open spec fn prefix_chars(s: Seq<char>, n: nat) -> Seq<char> {
    if s.len() <= n {
        s
    } else {
        s.take(n as int)
    }
}

/// Characters of a new topic's summary taken from the user's text.
pub open spec fn preview_len() -> nat {
    80
}

/// What applying a resolve outcome does to memory and returns.
pub open spec fn outcome_applied(
    before: SessionMemory,
    after: SessionMemory,
    outcome: ResolveOutcome,
    user: Seq<char>,
    query: Seq<u32>,
    r: ResolveApply,
) -> bool {
    match outcome {
        ResolveOutcome::Continue => r == ResolveApply::Switch(TopicSwitch::Continue) && after
            == before,
        ResolveOutcome::New => r == ResolveApply::Switch(TopicSwitch::New)
            && SessionMemory::chunk_opened(
            before,
            after,
            prefix_chars(user, preview_len()),
            query,
        ),
        ResolveOutcome::Return { chunk_index } => r == ResolveApply::Switch(
            TopicSwitch::Return { chunk_index },
        ) && if chunk_index < before.chunks@.len() {
            SessionMemory::switched_to(before, after, chunk_index)
        } else {
            after == before
        },
        ResolveOutcome::NeedsClarification(c) => {
            &&& r == ResolveApply::Clarify(c.question)
            &&& after.pending_clarify matches Some(p) && p.question == c.question
                && p.candidates@.len() == c.candidates@.len() && forall|i: int|
                0 <= i < p.candidates@.len() ==> (#[trigger] p.candidates@[i]).label
                    == c.candidates@[i].label && p.candidates@[i].return_chunk == action_chunk(
                    c.candidates@[i].action,
                )
            &&& after == SessionMemory { pending_clarify: after.pending_clarify, ..before }
        },
    }
}

/// Apply a topic-resolve outcome to memory (the second half of resolving a
/// turn): open a chunk for a new topic, switch on a return, or store the
/// clarification to ask.
pub fn apply_resolve_outcome(
    memory: &mut SessionMemory,
    outcome: ResolveOutcome,
    user: &str,
    query: Vec<u32>,
) -> (r: ResolveApply)
    requires
        old(memory).can_open_chunk(),
    ensures
        outcome_applied(*old(memory), *final(memory), outcome, user@, query@, r),
        old(memory).wf() ==> final(memory).wf(),
{
    match outcome {
        ResolveOutcome::Continue => ResolveApply::Switch(TopicSwitch::Continue),
        ResolveOutcome::New => {
            let uc = chars_of(user);
            let mut preview: Vec<char> = Vec::new();
            let mut i: usize = 0;
            while i < uc.len() && i < 80
                invariant
                    i <= uc.len(),
                    i <= 80,
                    preview@ == uc@.take(i as int),
                decreases 80 - i,
            {
                preview.push(uc[i]);
                assert(uc@.take(i as int).push(uc@[i as int]) =~= uc@.take(i + 1));
                i = i + 1;
            }
            assert(preview@ =~= prefix_chars(user@, preview_len()));
            let summary = string_of(preview.as_slice());
            memory.open_chunk(summary.as_str(), query);
            ResolveApply::Switch(TopicSwitch::New)
        },
        ResolveOutcome::Return { chunk_index } => {
            memory.return_to_chunk(chunk_index);
            ResolveApply::Switch(TopicSwitch::Return { chunk_index })
        },
        ResolveOutcome::NeedsClarification(c) => {
            let pending = clarification_to_pending(&c);
            memory.set_pending_clarify(pending);
            ResolveApply::Clarify(c.question)
        },
    }
}

// ---------------------------------------------------------------------------
// Events and context of a turn.
// ---------------------------------------------------------------------------

/// Kind name and chunk of a topic event.
pub open spec fn topic_event_spec(switch: TopicSwitch) -> (Seq<char>, Option<usize>) {
    match switch {
        TopicSwitch::Continue => ("continue"@, None),
        TopicSwitch::New => ("new"@, None),
        TopicSwitch::Return { chunk_index } => ("return"@, Some(chunk_index)),
    }
}

/// Record the applied topic switch as an event.
pub fn push_topic_event(events: &mut Vec<AgentEvent>, switch: &TopicSwitch)
    ensures
        final(events)@.len() == old(events)@.len() + 1,
        final(events)@.drop_last() == old(events)@,
        is_topic_event(final(events)@.last(), *switch),
{
    let (kind, chunk_index) = match switch {
        TopicSwitch::Continue => ("continue", None),
        TopicSwitch::New => ("new", None),
        TopicSwitch::Return { chunk_index } => ("return", Some(*chunk_index)),
    };
    events.push(AgentEvent::Topic { kind: kind.to_owned(), chunk_index });
    assert(events@.drop_last() =~= old(events)@);
}

/// `e` is the topic event of `sw`.
pub open spec fn is_topic_event(e: AgentEvent, sw: TopicSwitch) -> bool {
    match e {
        AgentEvent::Topic { kind, chunk_index } => kind@ == topic_event_spec(sw).0 && chunk_index
            == topic_event_spec(sw).1,
        _ => false,
    }
}

/// `e` asks question `q` with `n` numbered choices.
pub open spec fn is_clarify_event(e: AgentEvent, q: String, n: nat) -> bool {
    match e {
        AgentEvent::Clarify { question, choices } => question == q && choices@.len() == n,
        _ => false,
    }
}

/// `e` reports injected notes of `chars` bytes.
pub open spec fn is_context_event(e: AgentEvent, chars: usize, dynamic: bool) -> bool {
    match e {
        AgentEvent::Context { chars: c, has_dynamic } => c == chars && has_dynamic == dynamic,
        _ => false,
    }
}

/// Number of candidates of the pending clarification.
pub open spec fn pending_len(m: SessionMemory) -> nat {
    match m.pending_clarify {
        Some(p) => p.candidates@.len(),
        None => 0,
    }
}

/// What `settle_resolve` returns.
pub open spec fn settled(
    memory: SessionMemory,
    apply: ResolveApply,
    events: Seq<AgentEvent>,
    r: Result<(TopicSwitch, Vec<AgentEvent>), TurnOutcome>,
) -> bool {
    match apply {
        ResolveApply::Switch(sw) => match r {
            Ok((s, evs)) => s == sw && evs@.drop_last() == events && evs@.len() == events.len() + 1
                && is_topic_event(evs@.last(), sw),
            Err(_) => false,
        },
        ResolveApply::Clarify(q) => match r {
            Ok(_) => false,
            Err(o) => o.reply_text == q && o.events@.len() == events.len() + 2 && o.events@.take(
                events.len() as int,
            ) == events && is_clarify_event(o.events@[events.len() as int], q, pending_len(memory))
                && o.events@.last() == (AgentEvent::Done { text: q }),
        },
        ResolveApply::Ack(msg) => match r {
            Ok(_) => false,
            Err(o) => o.reply_text == msg && o.events@.len() == events.len() + 2 && o.events@.take(
                events.len() as int,
            ) == events && o.events@[events.len() as int] == (AgentEvent::Ack { text: msg })
                && o.events@.last() == (AgentEvent::Done { text: msg }),
        },
    }
}

/// Finish the resolve step of a turn: a clarification or an acknowledgement
/// ends the turn (with its events), a topic switch lets it go on to the model.
pub fn settle_resolve(memory: &SessionMemory, apply: ResolveApply, events: Vec<AgentEvent>) -> (r:
    Result<(TopicSwitch, Vec<AgentEvent>), TurnOutcome>)
    ensures
        settled(*memory, apply, events@, r),
{
    let mut events = events;
    let ghost start = events@;
    match apply {
        ResolveApply::Clarify(question) => {
            let choices = pending_choices(memory);
            events.push(AgentEvent::Clarify { question: question.clone(), choices });
            events.push(AgentEvent::Done { text: question.clone() });
            assert(events@.take(start.len() as int) =~= start);
            Err(TurnOutcome { events, reply_text: question })
        },
        ResolveApply::Ack(msg) => {
            events.push(AgentEvent::Ack { text: msg.clone() });
            events.push(AgentEvent::Done { text: msg.clone() });
            assert(events@.take(start.len() as int) =~= start);
            Err(TurnOutcome { events, reply_text: msg })
        },
        ResolveApply::Switch(sw) => {
            push_topic_event(&mut events, &sw);
            Ok((sw, events))
        },
    }
}

/// The compiler settings for a turn: recent turns are listed only when
/// returning to a topic.
pub open spec fn turn_config(switch: TopicSwitch) -> CompilerConfig {
    match switch {
        TopicSwitch::Return { .. } => CompilerConfig {
            recent_turn_window: 4,
            max_chars_per_side: 120,
            max_dynamic_turns: 6,
        },
        _ => CompilerConfig { recent_turn_window: 0, max_chars_per_side: 120, max_dynamic_turns: 6 },
    }
}

/// The switch returns to a chunk that exists.
pub open spec fn returns_to_existing(switch: TopicSwitch, m: SessionMemory) -> bool {
    match switch {
        TopicSwitch::Return { chunk_index } => chunk_index < m.chunks@.len(),
        _ => false,
    }
}

/// Notes for the model prompt of this turn (none without memory), with a
/// `Context` event recording their size when there are any.
pub fn turn_context(
    memory: &SessionMemory,
    switch: TopicSwitch,
    no_memory: bool,
    events: &mut Vec<AgentEvent>,
) -> (notes: Option<String>)
    ensures
        match notes {
            Some(n) => !no_memory && context_notes(*memory, switch, turn_config(switch)) == Some(n@),
            None => no_memory || context_notes(*memory, switch, turn_config(switch)).is_none(),
        },
        no_memory ==> notes.is_none() && final(events)@ == old(events)@,
        notes.is_none() ==> final(events)@ == old(events)@,
        notes matches Some(n) ==> final(events)@.len() == old(events)@.len() + 1
            && final(events)@.drop_last() == old(events)@ && is_context_event(
            final(events)@.last(),
            vstd::utf8::encode_utf8(n@).len() as usize,
            returns_to_existing(switch, *memory),
        ),
{
    if no_memory {
        return None;
    }
    let cfg = match switch {
        TopicSwitch::Return { .. } => CompilerConfig::default(),
        _ => CompilerConfig { recent_turn_window: 0, max_chars_per_side: 120, max_dynamic_turns: 6 },
    };
    assert(cfg == turn_config(switch));
    let ctx = compile(memory, switch, &cfg);
    let notes = ctx.render_notes(&cfg);
    proof {
        lemma_compiled_parts(*memory, switch, cfg, ctx);
    }
    match &notes {
        Some(n) => {
            events.push(AgentEvent::Context { chars: n.as_str().len(), has_dynamic: ctx.dynamic.is_some() });
            assert(events@.drop_last() =~= old(events)@);
        },
        None => {},
    }
    notes
}


/// After the active topic moves from chunk `a` to another existing chunk, a
/// return that names no topic ("さっきの話") goes back to `a`.
pub proof fn law_unspecified_return_after_switch(
    before: SessionMemory,
    after: SessionMemory,
    a: usize,
    b: usize,
    has_current: bool,
)
    requires
        before.current_chunk == Some(a),
        a != b,
        SessionMemory::switched_to(before, after, b),
    ensures
        unspecified_return_spec(
            after.previous_chunk,
            past_indices(after.chunks@.len(), after.current_chunk),
            has_current,
        ) == Some(ResolveOutcome::Return { chunk_index: a }),
{
}

/// After a new topic chunk is opened while chunk `a` was active, a return
/// that names no topic goes back to `a`.
pub proof fn law_unspecified_return_after_new_topic(
    before: SessionMemory,
    after: SessionMemory,
    a: usize,
    summary: Seq<char>,
    embedding: Seq<u32>,
    has_current: bool,
)
    requires
        before.current_chunk == Some(a),
        a < before.chunks@.len(),
        SessionMemory::chunk_opened(before, after, summary, embedding),
    ensures
        unspecified_return_spec(
            after.previous_chunk,
            past_indices(after.chunks@.len(), after.current_chunk),
            has_current,
        ) == Some(ResolveOutcome::Return { chunk_index: a }),
{
    let idx = before.chunks@.len();
    assert(idx == before.chunks.len());
    assert((idx as usize) as int == idx);
}

} // verus!
