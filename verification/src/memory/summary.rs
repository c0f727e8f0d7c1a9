//! Rolling summary without an LLM call.
use vstd::prelude::*;

use crate::memory::turn::Turn;
use crate::text::{
    decimal, decimal_chars, lemma_seq_join_push, push_chars, push_str_chars, seq_join, string_of,
    truncate_chars, truncate_spec,
};

verus! {

/// One numbered exchange: `{n}. user: {user}\n   assistant: {assistant}`,
/// each side cut to `max` characters.
pub open spec fn turn_line(n: nat, t: Turn, max: nat) -> Seq<char> {
    decimal(n) + ". user: "@ + truncate_spec(t.user@, max) + "\n   assistant: "@ + truncate_spec(
        t.assistant@,
        max,
    )
}

/// Lines for `turns[start..]`, numbered from `start + 1`.
pub open spec fn turn_lines(turns: Seq<Turn>, start: nat, max: nat) -> Seq<Seq<char>> {
    Seq::new(
        (turns.len() - start) as nat,
        |i: int| turn_line((start + i + 1) as nat, turns[start + i], max),
    )
}

/// The rendered lines for `turns[start..]` joined by newlines.
pub open spec fn render_turns_from(turns: Seq<Turn>, start: nat, max: nat) -> Seq<char> {
    seq_join(turn_lines(turns, start, max), "\n"@)
}

/// The first turn index kept when only the last `max_turns` are shown.
pub open spec fn window_start(len: nat, max_turns: nat) -> nat {
    if len >= max_turns {
        (len - max_turns) as nat
    } else {
        0
    }
}

/// What `simple_summary` returns.
pub open spec fn simple_summary_spec(turns: Seq<Turn>, max_turns: nat, max_chars: nat) -> Seq<
    char,
> {
    render_turns_from(turns, window_start(turns.len(), max_turns), max_chars)
}

fn turn_line_exec(n: usize, t: &Turn, max: usize) -> (r: Vec<char>)
    ensures
        r@ == turn_line(n as nat, *t, max as nat),
{
    let mut out = decimal_chars(n as u64);
    push_str_chars(&mut out, ". user: ");
    let u = truncate_chars(t.user.as_str(), max);
    push_chars(&mut out, u.as_slice());
    push_str_chars(&mut out, "\n   assistant: ");
    let a = truncate_chars(t.assistant.as_str(), max);
    push_chars(&mut out, a.as_slice());
    out
}

/// Renders `turns[start..]` as numbered lines joined by newlines.
pub fn render_turns_from_exec(turns: &[Turn], start: usize, max: usize) -> (r: Vec<char>)
    requires
        start <= turns.len(),
    ensures
        r@ == render_turns_from(turns@, start as nat, max as nat),
{
    let mut out: Vec<char> = Vec::new();
    let mut k: usize = start;
    let ghost lines = turn_lines(turns@, start as nat, max as nat);
    while k < turns.len()
        invariant
            start <= k <= turns.len(),
            lines == turn_lines(turns@, start as nat, max as nat),
            out@ == seq_join(lines.take(k - start), "\n"@),
        decreases turns.len() - k,
    {
        let line = turn_line_exec(k + 1, &turns[k], max);
        proof {
            lemma_seq_join_push(lines.take(k - start), "\n"@, line@);
            assert(lines.take(k - start).push(line@) =~= lines.take(k + 1 - start));
        }
        if k > start {
            push_str_chars(&mut out, "\n");
        }
        push_chars(&mut out, line.as_slice());
        k = k + 1;
    }
    assert(lines.take(turns.len() - start) =~= lines);
    out
}

/// Build a short plain-text summary from the most recent turns.
///
/// Truncates each side so the preamble stays small enough for a system prompt.
pub fn simple_summary(turns: &[Turn], max_turns: usize, max_chars_per_side: usize) -> (r: String)
    ensures
        r@ == simple_summary_spec(turns@, max_turns as nat, max_chars_per_side as nat),
        turns.len() == 0 ==> r@.len() == 0,
{
    let start = if turns.len() >= max_turns {
        turns.len() - max_turns
    } else {
        0
    };
    let v = render_turns_from_exec(turns, start, max_chars_per_side);
    string_of(v.as_slice())
}


/// The summary lists exactly the last `min(len, max_turns)` turns.
pub proof fn law_summary_keeps_window(turns: Seq<Turn>, max_turns: nat, max: nat)
    ensures
        turn_lines(turns, window_start(turns.len(), max_turns), max).len() == if turns.len()
            <= max_turns {
            turns.len()
        } else {
            max_turns
        },
{
}

} // verus!
