//! Short / deictic query expansion from recent user turns.
use vstd::prelude::*;

use crate::text::{
    chars_of, contains_str, has_substring, push_str_chars, str_to_lowercase, string_of,
    to_lowercase, trim, trim_spec, lemma_trim_idempotent,
};

verus! {

/// The lowercased text holds a deictic marker.
pub open spec fn deictic_marker(l: Seq<char>) -> bool {
    ||| has_substring(l, "それ"@)
    ||| has_substring(l, "これ"@)
    ||| has_substring(l, "あれ"@)
    ||| has_substring(l, "その"@)
    ||| has_substring(l, "この"@)
    ||| has_substring(l, "あの"@)
    ||| has_substring(l, "that"@)
    ||| has_substring(l, "this"@)
    ||| has_substring(l, "it "@)
    ||| has_substring(l, "it's"@)
    ||| has_substring(l, "what about"@)
    ||| has_substring(l, "and the"@)
}

/// Utterances shorter than this many characters borrow the previous turn.
pub open spec fn short_limit() -> nat {
    24
}

/// What `expand_query` returns.
pub open spec fn expand_spec(user: Seq<char>, previous_user: Option<Seq<char>>) -> Seq<char> {
    let t = trim_spec(user);
    if t.len() == 0 {
        Seq::empty()
    } else {
        let short = t.len() < short_limit();
        let deictic = deictic_marker(str_to_lowercase(t));
        match previous_user {
            Some(prev) => if (short || deictic) && trim_spec(prev).len() > 0 {
                trim_spec(prev) + "\n"@ + t
            } else {
                t
            },
            None => t,
        }
    }
}

/// Expand a short user utterance with the previous user message so the
/// embedding is less ambiguous.
pub fn expand_query(user: &str, previous_user: Option<&str>) -> (r: String)
    ensures
        r@ == expand_spec(
            user@,
            match previous_user {
                Some(p) => Some(p@),
                None => None,
            },
        ),
{
    let trimmed = trim(user);
    if trimmed.is_empty() {
        return String::new();
    }
    let t = chars_of(trimmed);
    let short = t.len() < 24;
    let deictic = looks_deictic(trimmed);
    match previous_user {
        Some(prev) => {
            let p = trim(prev);
            if (short || deictic) && !p.is_empty() {
                let mut out = chars_of(p);
                push_str_chars(&mut out, "\n");
                push_str_chars(&mut out, trimmed);
                string_of(out.as_slice())
            } else {
                trimmed.to_owned()
            }
        },
        None => trimmed.to_owned(),
    }
}

/// Whether the utterance holds a deictic marker (after lowercasing).
pub fn looks_deictic(s: &str) -> (r: bool)
    ensures
        r == deictic_marker(str_to_lowercase(s@)),
{
    let lower = to_lowercase(s);
    deictic_in(lower.as_str())
}

/// The deictic-marker test on already lowercased text.
pub fn deictic_in(lower: &str) -> (r: bool)
    ensures
        r == deictic_marker(lower@),
{
    let l = chars_of(lower);
    let l = l.as_slice();
    contains_str(l, "それ") || contains_str(l, "これ") || contains_str(l, "あれ") || contains_str(
        l,
        "その",
    ) || contains_str(l, "この") || contains_str(l, "あの") || contains_str(l, "that")
        || contains_str(l, "this") || contains_str(l, "it ") || contains_str(l, "it's")
        || contains_str(l, "what about") || contains_str(l, "and the")
}


/// Surrounding whitespace of the new utterance never changes the expansion.
pub proof fn law_expand_ignores_surrounding_whitespace(
    user: Seq<char>,
    previous_user: Option<Seq<char>>,
)
    ensures
        expand_spec(trim_spec(user), previous_user) == expand_spec(user, previous_user),
{
    lemma_trim_idempotent(user);
}

/// An utterance of at least the short limit, without a deictic marker, is
/// left as it is (trimmed), whatever came before.
pub proof fn law_long_plain_query_unchanged(user: Seq<char>, previous_user: Option<Seq<char>>)
    requires
        trim_spec(user).len() >= short_limit(),
        !deictic_marker(str_to_lowercase(trim_spec(user))),
    ensures
        expand_spec(user, previous_user) == trim_spec(user),
{
}

/// The deictic markers an utterance is expanded for.
pub open spec fn deictic_markers() -> Seq<Seq<char>> {
    seq![
        "それ"@, "これ"@, "あれ"@, "その"@, "この"@, "あの"@, "that"@, "this"@, "it "@, "it's"@,
        "what about"@, "and the"@,
    ]
}

/// An utterance holding one of the [`deictic_markers`] (after lowercasing)
/// is expanded with a non-blank previous message, whatever its length.
pub proof fn law_deictic_query_expanded(user: Seq<char>, prev: Seq<char>, k: int)
    requires
        trim_spec(user).len() > 0,
        trim_spec(prev).len() > 0,
        0 <= k < deictic_markers().len(),
        has_substring(str_to_lowercase(trim_spec(user)), deictic_markers()[k]),
    ensures
        expand_spec(user, Some(prev)) == trim_spec(prev) + "\n"@ + trim_spec(user),
{
}

} // verus!
