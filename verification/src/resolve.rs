//! Topic resolve outcomes, clarification questions and reply matching.
//!
//! The similarity cascade itself works on floating-point scores and lives
//! with the shell; this module holds every rule that does not.
use vstd::prelude::*;

use crate::topic::S2Decision;

use crate::text::{
    chars_of, decimal, decimal_chars, has_substring, lemma_seq_join_push, push_chars,
    push_str_chars, seq_join, str_to_lowercase, string_of, to_lowercase, trim, trim_spec,
    contains_chars, digit_char, lemma_trim_idempotent,
};

verus! {

/// What the user may pick in a clarification.
#[derive(Debug, Clone, Copy, PartialEq, Eq, Structural)]
pub enum ClarifyAction {
    ContinueCurrent,
    ReturnTo { chunk_index: usize },
}

#[derive(Debug, PartialEq)]
pub struct ClarifyCandidate {
    pub label: String,
    pub action: ClarifyAction,
}

#[derive(Debug, PartialEq)]
pub struct Clarification {
    pub question: String,
    pub candidates: Vec<ClarifyCandidate>,
}

#[derive(Debug, PartialEq)]
pub enum ResolveOutcome {
    Continue,
    New,
    Return { chunk_index: usize },
    NeedsClarification(Clarification),
}

// ---------------------------------------------------------------------------
// Clarification questions.
// ---------------------------------------------------------------------------

/// First line of a clarification question.
pub open spec fn question_head() -> Seq<char> {
    "どの話に戻りますか？"@
}

/// Last line of a clarification question.
pub open spec fn question_tail() -> Seq<char> {
    "番号か話題のキーワードで答えてください。"@
}

/// Label of the "stay on the current topic" choice.
pub open spec fn stay_label() -> Seq<char> {
    "今の話題のまま"@
}

/// One numbered choice line.
pub open spec fn choice_line(n: nat, label: Seq<char>) -> Seq<char> {
    decimal(n) + ". "@ + label
}

/// The question for the given candidate labels.
pub open spec fn question_spec(labels: Seq<Seq<char>>) -> Seq<char> {
    seq_join(
        seq![question_head()] + Seq::new(labels.len(), |i: int| choice_line((i + 1) as nat, labels[i]))
            + seq![question_tail()],
        "\n"@,
    )
}

/// The labels of the candidates.
pub open spec fn candidate_labels(cs: Seq<ClarifyCandidate>) -> Seq<Seq<char>> {
    Seq::new(cs.len(), |i: int| cs[i].label@)
}

/// The numbered question listing the candidates.
pub fn format_clarify_question(candidates: &[ClarifyCandidate]) -> (r: String)
    ensures
        r@ == question_spec(candidate_labels(candidates@)),
{
    let ghost labels = candidate_labels(candidates@);
    let ghost lines = seq![question_head()] + Seq::new(
        labels.len(),
        |i: int| choice_line((i + 1) as nat, labels[i]),
    ) + seq![question_tail()];
    let mut out: Vec<char> = Vec::new();
    push_str_chars(&mut out, "どの話に戻りますか？");
    proof {
        assert(lines.take(1) =~= seq![question_head()]);
        assert(seq_join(lines.take(1), "\n"@) == question_head());
    }
    let mut i: usize = 0;
    while i < candidates.len()
        invariant
            i <= candidates.len(),
            labels == candidate_labels(candidates@),
            lines == seq![question_head()] + Seq::new(
                labels.len(),
                |k: int| choice_line((k + 1) as nat, labels[k]),
            ) + seq![question_tail()],
            out@ == seq_join(lines.take(i + 1), "\n"@),
        decreases candidates.len() - i,
    {
        let mut line = decimal_chars((i + 1) as u64);
        push_str_chars(&mut line, ". ");
        push_str_chars(&mut line, candidates[i].label.as_str());
        proof {
            assert(line@ == lines[i + 1]);
            lemma_seq_join_push(lines.take(i + 1), "\n"@, line@);
            assert(lines.take(i + 1).push(line@) =~= lines.take(i + 2));
        }
        push_str_chars(&mut out, "\n");
        push_chars(&mut out, line.as_slice());
        i = i + 1;
    }
    proof {
        lemma_seq_join_push(lines.take(i + 1), "\n"@, question_tail());
        assert(lines.take(i + 1).push(question_tail()) =~= lines);
    }
    push_str_chars(&mut out, "\n");
    push_str_chars(&mut out, "番号か話題のキーワードで答えてください。");
    string_of(out.as_slice())
}

/// The past indices with repeats removed, first occurrence kept, in order.
pub open spec fn dedup(s: Seq<usize>) -> Seq<usize>
    decreases s.len(),
{
    if s.len() == 0 {
        s
    } else {
        let d = dedup(s.drop_last());
        if d.contains(s.last()) {
            d
        } else {
            d.push(s.last())
        }
    }
}

/// Label shown for chunk `index`: its summary, or `topic #{index}` when it
/// has none.
pub open spec fn label_for(index: usize, labels: Seq<String>) -> Seq<char> {
    if index < labels.len() && labels[index as int]@.len() > 0 {
        labels[index as int]@
    } else {
        "topic #"@ + decimal(index as nat)
    }
}

/// The candidates of a clarification: optionally "stay", then one return
/// choice per distinct past chunk.
pub open spec fn candidates_ok(
    cs: Seq<ClarifyCandidate>,
    past: Seq<usize>,
    labels: Seq<String>,
    include_current_option: bool,
) -> bool {
    let off: int = if include_current_option {
        1
    } else {
        0
    };
    let d = dedup(past);
    &&& cs.len() == off + d.len()
    &&& include_current_option ==> cs[0].label@ == stay_label() && cs[0].action
        == ClarifyAction::ContinueCurrent
    &&& forall|k: int|
        0 <= k < d.len() ==> #[trigger] is_return_candidate(cs[off + k], d[k], labels)
}

/// `c` offers a return to chunk `idx` under its label.
pub open spec fn is_return_candidate(c: ClarifyCandidate, idx: usize, labels: Seq<String>) -> bool {
    c.label@ == label_for(idx, labels) && c.action == (ClarifyAction::ReturnTo { chunk_index: idx })
}

fn contains_index(v: &Vec<usize>, x: usize) -> (r: bool)
    ensures
        r == v@.contains(x),
{
    let mut i: usize = 0;
    while i < v.len()
        invariant
            i <= v.len(),
            forall|k: int| 0 <= k < i ==> v@[k] != x,
        decreases v.len() - i,
    {
        if v[i] == x {
            assert(v@[i as int] == x);
            return true;
        }
        i = i + 1;
    }
    false
}

fn label_for_exec(index: usize, labels: &[String]) -> (r: String)
    ensures
        r@ == label_for(index, labels@),
{
    if index < labels.len() && !labels[index].as_str().is_empty() {
        labels[index].clone()
    } else {
        let mut out: Vec<char> = Vec::new();
        push_str_chars(&mut out, "topic #");
        let num = decimal_chars(index as u64);
        push_chars(&mut out, num.as_slice());
        string_of(out.as_slice())
    }
}

/// A clarification offering the distinct past chunks (and, when asked,
/// staying on the current topic).
pub fn build_clarification(past: &[usize], labels: &[String], include_current_option: bool) -> (c:
    Clarification)
    ensures
        candidates_ok(c.candidates@, past@, labels@, include_current_option),
        c.question@ == question_spec(candidate_labels(c.candidates@)),
{
    let mut candidates: Vec<ClarifyCandidate> = Vec::new();
    if include_current_option {
        candidates.push(
            ClarifyCandidate { label: "今の話題のまま".to_owned(), action: ClarifyAction::ContinueCurrent },
        );
    }
    let ghost off: int = if include_current_option {
        1
    } else {
        0
    };
    let mut seen: Vec<usize> = Vec::new();
    let mut i: usize = 0;
    while i < past.len()
        invariant
            i <= past.len(),
            off == (if include_current_option {
                1int
            } else {
                0int
            }),
            seen@ == dedup(past@.take(i as int)),
            candidates@.len() == off + seen@.len(),
            include_current_option ==> candidates@[0].label@ == stay_label() && candidates@[0].action
                == ClarifyAction::ContinueCurrent,
            forall|k: int|
                0 <= k < seen@.len() ==> #[trigger] is_return_candidate(
                    candidates@[off + k],
                    seen@[k],
                    labels@,
                ),
        decreases past.len() - i,
    {
        let idx = past[i];
        proof {
            assert(past@.take(i + 1).drop_last() =~= past@.take(i as int));
            assert(past@.take(i + 1).last() == idx);
        }
        if !contains_index(&seen, idx) {
            let label = label_for_exec(idx, labels);
            let ghost old_c = candidates@;
            let ghost old_seen = seen@;
            candidates.push(ClarifyCandidate { label, action: ClarifyAction::ReturnTo { chunk_index: idx } });
            seen.push(idx);
            proof {
                assert forall|k: int| 0 <= k < seen@.len() implies #[trigger] is_return_candidate(
                    candidates@[off + k],
                    seen@[k],
                    labels@,
                ) by {
                    if k < old_seen.len() {
                        assert(is_return_candidate(old_c[off + k], old_seen[k], labels@));
                        assert(candidates@[off + k] == old_c[off + k]);
                        assert(seen@[k] == old_seen[k]);
                    } else {
                        assert(candidates@[off + k] == candidates@.last());
                    }
                }
            }
        }
        i = i + 1;
    }
    assert(past@.take(past.len() as int) =~= past@);
    let question = format_clarify_question(candidates.as_slice());
    Clarification { question, candidates }
}

/// Resolution of a return that names no topic: the previous topic when one
/// is known, otherwise the only past topic, otherwise ask (or stay / open a
/// new topic when there is no past at all).
pub open spec fn unspecified_return_spec(
    previous_chunk: Option<usize>,
    past: Seq<usize>,
    has_current: bool,
) -> Option<ResolveOutcome> {
    match previous_chunk {
        Some(i) => Some(ResolveOutcome::Return { chunk_index: i }),
        None => if past.len() == 0 {
            if has_current {
                Some(ResolveOutcome::Continue)
            } else {
                Some(ResolveOutcome::New)
            }
        } else if past.len() == 1 {
            Some(ResolveOutcome::Return { chunk_index: past[0] })
        } else {
            None
        },
    }
}

/// Resolve a topic return that does not name its topic ("さっきの話").
pub fn resolve_unspecified_return(
    previous_chunk: Option<usize>,
    past: &[usize],
    has_current: bool,
    chunk_labels: &[String],
) -> (r: ResolveOutcome)
    ensures
        match unspecified_return_spec(previous_chunk, past@, has_current) {
            Some(o) => r == o,
            None => r matches ResolveOutcome::NeedsClarification(c) && candidates_ok(
                c.candidates@,
                past@,
                chunk_labels@,
                true,
            ) && c.question@ == question_spec(candidate_labels(c.candidates@)),
        },
{
    match previous_chunk {
        Some(i) => ResolveOutcome::Return { chunk_index: i },
        None => {
            if past.len() == 0 {
                if has_current {
                    ResolveOutcome::Continue
                } else {
                    ResolveOutcome::New
                }
            } else if past.len() == 1 {
                ResolveOutcome::Return { chunk_index: past[0] }
            } else {
                ResolveOutcome::NeedsClarification(build_clarification(past, chunk_labels, true))
            }
        },
    }
}

/// What the embedding stage (S1, and S2 in its gray band) concluded, as the
/// resolver reads it.
#[derive(Debug, Clone, Copy, PartialEq, Eq, Structural)]
pub enum S1Verdict {
    /// Two past topics score strongly and too close to tell apart.
    AmbiguousPast,
    Continue,
    New,
    Return { chunk_index: usize },
    /// S1 was unsure; this is what S2 decided.
    Gray(S2Decision),
}

/// The resolve outcome of an embedding-stage verdict; a clarification lists
/// the distinct past topics (without the "stay" choice).
pub fn outcome_from_s1(verdict: S1Verdict, past: &[usize], chunk_labels: &[String]) -> (r:
    ResolveOutcome)
    ensures
        match verdict {
            S1Verdict::Continue | S1Verdict::Gray(S2Decision::Continue) => r
                == ResolveOutcome::Continue,
            S1Verdict::New | S1Verdict::Gray(S2Decision::New) => r == ResolveOutcome::New,
            S1Verdict::Return { chunk_index } => r == ResolveOutcome::Return { chunk_index },
            S1Verdict::Gray(S2Decision::Return { chunk_index }) => r == ResolveOutcome::Return {
                chunk_index,
            },
            S1Verdict::AmbiguousPast | S1Verdict::Gray(S2Decision::ClarifyPast) => r matches ResolveOutcome::NeedsClarification(c)
                && candidates_ok(c.candidates@, past@, chunk_labels@, false) && c.question@
                == question_spec(candidate_labels(c.candidates@)),
        },
{
    match verdict {
        S1Verdict::AmbiguousPast => ResolveOutcome::NeedsClarification(
            build_clarification(past, chunk_labels, false),
        ),
        S1Verdict::Continue => ResolveOutcome::Continue,
        S1Verdict::New => ResolveOutcome::New,
        S1Verdict::Return { chunk_index } => ResolveOutcome::Return { chunk_index },
        S1Verdict::Gray(d) => match d {
            S2Decision::Continue => ResolveOutcome::Continue,
            S2Decision::New => ResolveOutcome::New,
            S2Decision::Return { chunk_index } => ResolveOutcome::Return { chunk_index },
            S2Decision::ClarifyPast => ResolveOutcome::NeedsClarification(
                build_clarification(past, chunk_labels, false),
            ),
        },
    }
}

// ---------------------------------------------------------------------------
// Matching a reply against a pending clarification.
// ---------------------------------------------------------------------------

/// Every character is an ASCII digit.
pub open spec fn all_ascii_digits(s: Seq<char>) -> bool {
    forall|i: int| 0 <= i < s.len() ==> '0' <= #[trigger] s[i] && s[i] <= '9'
}

/// The number written by ASCII digits.
pub open spec fn digits_value(s: Seq<char>) -> nat
    decreases s.len(),
{
    if s.len() == 0 {
        0
    } else {
        digits_value(s.drop_last()) * 10 + ((s.last() as int) - ('0' as int)) as nat
    }
}

/// What `str::parse::<usize>` accepts: an optional `+` followed by one or
/// more ASCII digits whose value fits in `usize`.
pub open spec fn parse_usize_spec(s: Seq<char>) -> Option<usize> {
    let d = if s.len() > 0 && s[0] == '+' {
        s.drop_first()
    } else {
        s
    };
    if d.len() > 0 && all_ascii_digits(d) && digits_value(d) <= usize::MAX {
        Some(digits_value(d) as usize)
    } else {
        None
    }
}

/// `str::parse::<usize>`: an optional `+` sign followed by decimal digits,
/// `None` on anything else or on overflow.
fn parse_usize(s: &str) -> (r: Option<usize>)
    ensures
        r == parse_usize_spec(s@),
{
    let cs = chars_of(s);
    let start: usize = if cs.len() > 0 && cs[0] == '+' {
        1
    } else {
        0
    };
    let ghost d = cs@.subrange(start as int, cs@.len() as int);
    assert(d =~= (if s@.len() > 0 && s@[0] == '+' {
        s@.drop_first()
    } else {
        s@
    }));
    if start >= cs.len() {
        return None;
    }
    let mut acc: usize = 0;
    let mut overflow = false;
    let mut i: usize = start;
    while i < cs.len()
        invariant
            start <= i <= cs.len(),
            cs@ == s@,
            d == cs@.subrange(start as int, cs@.len() as int),
            d == (if s@.len() > 0 && s@[0] == '+' {
                s@.drop_first()
            } else {
                s@
            }),
            all_ascii_digits(d.take(i - start)),
            !overflow ==> acc == digits_value(d.take(i - start)),
            overflow ==> digits_value(d.take(i - start)) > usize::MAX,
        decreases cs.len() - i,
    {
        let c = cs[i];
        if !('0' <= c && c <= '9') {
            assert(d[i - start] == c);
            assert(!all_ascii_digits(d));
            return None;
        }
        let ghost k = (i - start) as int;
        assert(d.take(k + 1).drop_last() =~= d.take(k));
        assert(d.take(k + 1).last() == c);
        let digit = (c as u32 - '0' as u32) as usize;
        if !overflow {
            match acc.checked_mul(10) {
                Some(m) => match m.checked_add(digit) {
                    Some(v) => {
                        acc = v;
                    },
                    None => {
                        overflow = true;
                    },
                },
                None => {
                    overflow = true;
                },
            }
        }
        assert(all_ascii_digits(d.take(k + 1)));
        i = i + 1;
    }
    assert(d.take(d.len() as int) =~= d);
    if overflow {
        None
    } else {
        Some(acc)
    }
}

/// Whether the text parses as a `usize`.
pub fn parses_as_usize(s: &str) -> (r: bool)
    ensures
        r == parse_usize_spec(s@) is Some,
{
    parse_usize(s).is_some()
}

/// Match key of a label: its first six (lowercased) characters.
pub open spec fn label_key(label_lower: Seq<char>) -> Seq<char> {
    if label_lower.len() <= 6 {
        label_lower
    } else {
        label_lower.take(6)
    }
}

/// The reply and a candidate's label contain one another.
pub open spec fn label_hit(lower: Seq<char>, c: ClarifyCandidate) -> bool {
    has_substring(lower, str_to_lowercase(c.label@)) || has_substring(
        str_to_lowercase(c.label@),
        lower,
    )
}

/// The reply contains the candidate's key of at least two characters.
pub open spec fn key_hit(lower: Seq<char>, c: ClarifyCandidate) -> bool {
    let key = label_key(str_to_lowercase(c.label@));
    key.len() >= 2 && has_substring(lower, key)
}

/// Action of the first candidate whose label matches the reply.
pub open spec fn first_label_hit(cs: Seq<ClarifyCandidate>, lower: Seq<char>) -> Option<
    ClarifyAction,
>
    decreases cs.len(),
{
    if cs.len() == 0 {
        None
    } else if label_hit(lower, cs[0]) {
        Some(cs[0].action)
    } else {
        first_label_hit(cs.drop_first(), lower)
    }
}

/// Action of the first candidate whose key occurs in the reply.
pub open spec fn first_key_hit(cs: Seq<ClarifyCandidate>, lower: Seq<char>) -> Option<ClarifyAction>
    decreases cs.len(),
{
    if cs.len() == 0 {
        None
    } else if key_hit(lower, cs[0]) {
        Some(cs[0].action)
    } else {
        first_key_hit(cs.drop_first(), lower)
    }
}

/// What `match_clarification` returns: a number `1..=len` picks that
/// candidate; otherwise the first label match; otherwise the first key match.
pub open spec fn match_spec(user: Seq<char>, cs: Seq<ClarifyCandidate>) -> Option<ClarifyAction> {
    let t = trim_spec(user);
    if t.len() == 0 {
        None
    } else {
        let n = parse_usize_spec(t);
        if n is Some && 1 <= n->0 && n->0 <= cs.len() {
            Some(cs[n->0 - 1].action)
        } else {
            let lower = str_to_lowercase(t);
            match first_label_hit(cs, lower) {
                Some(a) => Some(a),
                None => first_key_hit(cs, lower),
            }
        }
    }
}

fn label_hit_exec(lower: &[char], c: &ClarifyCandidate) -> (r: bool)
    ensures
        r == label_hit(lower@, *c),
{
    let ll = to_lowercase(c.label.as_str());
    let lc = chars_of(ll.as_str());
    contains_chars(lower, lc.as_slice()) || contains_chars(lc.as_slice(), lower)
}

fn key_hit_exec(lower: &[char], c: &ClarifyCandidate) -> (r: bool)
    ensures
        r == key_hit(lower@, *c),
{
    let ll = to_lowercase(c.label.as_str());
    let lc = chars_of(ll.as_str());
    let mut key: Vec<char> = Vec::new();
    let mut i: usize = 0;
    while i < lc.len() && i < 6
        invariant
            i <= lc.len(),
            i <= 6,
            key@ == lc@.take(i as int),
        decreases 6 - i,
    {
        key.push(lc[i]);
        assert(lc@.take(i as int).push(lc@[i as int]) =~= lc@.take(i + 1));
        i = i + 1;
    }
    assert(key@ =~= label_key(lc@));
    key.len() >= 2 && contains_chars(lower, key.as_slice())
}

/// Match a user reply against a pending clarification.
pub fn match_clarification(user: &str, clarification: &Clarification) -> (r: Option<ClarifyAction>)
    ensures
        r == match_spec(user@, clarification.candidates@),
{
    let trimmed = trim(user);
    if trimmed.is_empty() {
        return None;
    }
    let cs = &clarification.candidates;
    match parse_usize(trimmed) {
        Some(n) => {
            if 1 <= n && n <= cs.len() {
                return Some(cs[n - 1].action);
            }
        },
        None => {},
    }
    let lower_s = to_lowercase(trimmed);
    let lower = chars_of(lower_s.as_str());
    let ghost t = trim_spec(user@);
    let ghost pn = parse_usize_spec(t);
    assert(!(pn is Some && 1 <= pn->0 && pn->0 <= cs@.len()));
    let mut i: usize = 0;
    assert(cs@.skip(0) =~= cs@);
    while i < cs.len()
        invariant
            i <= cs.len(),
            cs@ == clarification.candidates@,
            trimmed@ == t,
            t == trim_spec(user@),
            t.len() > 0,
            pn == parse_usize_spec(t),
            !(pn is Some && 1 <= pn->0 && pn->0 <= cs@.len()),
            lower@ == str_to_lowercase(t),
            first_label_hit(cs@, lower@) == first_label_hit(cs@.skip(i as int), lower@),
        decreases cs.len() - i,
    {
        proof {
            assert(cs@.skip(i as int).drop_first() =~= cs@.skip(i + 1));
        }
        if label_hit_exec(lower.as_slice(), &cs[i]) {
            return Some(cs[i].action);
        }
        i = i + 1;
    }
    let mut j: usize = 0;
    assert(cs@.skip(i as int).len() == 0);
    while j < cs.len()
        invariant
            j <= cs.len(),
            cs@ == clarification.candidates@,
            t == trim_spec(user@),
            t.len() > 0,
            pn == parse_usize_spec(t),
            !(pn is Some && 1 <= pn->0 && pn->0 <= cs@.len()),
            lower@ == str_to_lowercase(t),
            first_label_hit(cs@, lower@).is_none(),
            first_key_hit(cs@, lower@) == first_key_hit(cs@.skip(j as int), lower@),
        decreases cs.len() - j,
    {
        proof {
            assert(cs@.skip(j as int).drop_first() =~= cs@.skip(j + 1));
        }
        if key_hit_exec(lower.as_slice(), &cs[j]) {
            return Some(cs[j].action);
        }
        j = j + 1;
    }
    None
}


proof fn lemma_decimal_shape(k: nat)
    ensures
        decimal(k).len() > 0,
        all_ascii_digits(decimal(k)),
        digits_value(decimal(k)) == k,
        decimal(k)[0] != '+',
    decreases k,
{
    if k >= 10 {
        lemma_decimal_shape(k / 10);
        let d = decimal(k);
        assert(d.drop_last() == decimal(k / 10));
        assert(d.last() == digit_char(k % 10));
        assert(((d.last() as int) - ('0' as int)) == k % 10);
        assert(digits_value(d) == digits_value(decimal(k / 10)) * 10 + k % 10);
        assert forall|i: int| 0 <= i < d.len() implies '0' <= #[trigger] d[i] && d[i] <= '9' by {
            if i < d.len() - 1 {
                assert(d[i] == decimal(k / 10)[i]);
            }
        }
        assert(d[0] == decimal(k / 10)[0]);
    } else {
        let d = decimal(k);
        assert(d.drop_last().len() == 0);
        assert(digits_value(d.drop_last()) == 0);
    }
}

/// `str::parse::<usize>` reads back the decimal rendering of any `usize`.
pub proof fn lemma_parse_decimal(k: usize)
    ensures
        parse_usize_spec(decimal(k as nat)) == Some(k),
{
    lemma_decimal_shape(k as nat);
}

/// Answering a clarification with the number `k` of a choice (surrounding
/// whitespace allowed) picks that choice.
pub proof fn law_clarify_answer_by_number(user: Seq<char>, cs: Seq<ClarifyCandidate>, k: usize)
    requires
        1 <= k <= cs.len(),
        trim_spec(user) == decimal(k as nat),
    ensures
        match_spec(user, cs) == Some(cs[k - 1].action),
{
    lemma_parse_decimal(k);
    lemma_decimal_shape(k as nat);
}

/// Surrounding whitespace never changes how a reply matches.
pub proof fn law_clarify_ignores_surrounding_whitespace(user: Seq<char>, cs: Seq<ClarifyCandidate>)
    ensures
        match_spec(trim_spec(user), cs) == match_spec(user, cs),
{
    lemma_trim_idempotent(user);
}

/// Removing repeats keeps every element exactly once.
pub proof fn law_dedup_distinct(s: Seq<usize>)
    ensures
        forall|x: usize| dedup(s).contains(x) <==> s.contains(x),
        forall|i: int, j: int| 0 <= i < j < dedup(s).len() ==> dedup(s)[i] != dedup(s)[j],
    decreases s.len(),
{
    if s.len() > 0 {
        let t = s.drop_last();
        law_dedup_distinct(t);
        let d = dedup(t);
        let l = s.last();
        assert forall|x: usize| dedup(s).contains(x) <==> s.contains(x) by {
            assert(s =~= t.push(l));
            if s.contains(x) {
                let i = choose|i: int| 0 <= i < s.len() && s[i] == x;
                if i < t.len() {
                    assert(t[i] == x);
                    assert(t.contains(x));
                    assert(d.contains(x));
                    if !d.contains(l) {
                        let j = choose|j: int| 0 <= j < d.len() && d[j] == x;
                        assert(d.push(l)[j] == x);
                    }
                } else {
                    assert(x == l);
                    if !d.contains(l) {
                        assert(d.push(l)[d.len() as int] == x);
                    }
                }
            }
            if dedup(s).contains(x) {
                if d.contains(l) {
                    assert(d.contains(x));
                } else {
                    let j = choose|j: int| 0 <= j < d.push(l).len() && d.push(l)[j] == x;
                    if j < d.len() {
                        assert(d[j] == x);
                        assert(d.contains(x));
                    } else {
                        assert(x == l);
                    }
                }
                if d.contains(x) {
                    assert(t.contains(x));
                    let i = choose|i: int| 0 <= i < t.len() && t[i] == x;
                    assert(s[i] == x);
                } else {
                    assert(s[s.len() - 1] == x);
                }
            }
        }
    }
}


proof fn lemma_first_label_hit_at(cs: Seq<ClarifyCandidate>, lower: Seq<char>, k: int)
    requires
        0 <= k < cs.len(),
        label_hit(lower, cs[k]),
        forall|j: int| 0 <= j < k ==> !label_hit(lower, #[trigger] cs[j]),
    ensures
        first_label_hit(cs, lower) == Some(cs[k].action),
    decreases k,
{
    if k > 0 {
        let rest = cs.drop_first();
        assert forall|j: int| 0 <= j < k - 1 implies !label_hit(lower, #[trigger] rest[j]) by {
            assert(rest[j] == cs[j + 1]);
        }
        assert(!label_hit(lower, cs[0]));
        lemma_first_label_hit_at(rest, lower, k - 1);
    }
}

/// Answering a clarification with (a text containing, or contained in) the
/// label of a choice picks the first such choice, when the reply is not a
/// choice number.
pub proof fn law_clarify_answer_by_label(user: Seq<char>, cs: Seq<ClarifyCandidate>, k: int)
    requires
        0 <= k < cs.len(),
        trim_spec(user).len() > 0,
        !(parse_usize_spec(trim_spec(user)) matches Some(n) && 1 <= n && n <= cs.len()),
        label_hit(str_to_lowercase(trim_spec(user)), cs[k]),
        forall|j: int| 0 <= j < k ==> !label_hit(str_to_lowercase(trim_spec(user)), #[trigger] cs[j]),
    ensures
        match_spec(user, cs) == Some(cs[k].action),
{
    lemma_first_label_hit_at(cs, str_to_lowercase(trim_spec(user)), k);
}

/// Label matching ignores case: a reply (not a choice number) that the
/// lowercased label of a candidate contains picks that candidate, when no
/// earlier candidate's lowercased label contains the lowercased reply or is
/// contained in it.
pub proof fn law_clarify_label_match_ignores_case(user: Seq<char>, cs: Seq<ClarifyCandidate>, k: int)
    requires
        0 <= k < cs.len(),
        trim_spec(user).len() > 0,
        !(parse_usize_spec(trim_spec(user)) matches Some(n) && 1 <= n && n <= cs.len()),
        has_substring(str_to_lowercase(cs[k].label@), str_to_lowercase(trim_spec(user))),
        forall|j: int|
            0 <= j < k ==> !has_substring(
                str_to_lowercase(#[trigger] cs[j].label@),
                str_to_lowercase(trim_spec(user)),
            ) && !has_substring(str_to_lowercase(trim_spec(user)), str_to_lowercase(cs[j].label@)),
    ensures
        match_spec(user, cs) == Some(cs[k].action),
{
    lemma_first_label_hit_at(cs, str_to_lowercase(trim_spec(user)), k);
}

} // verus!
