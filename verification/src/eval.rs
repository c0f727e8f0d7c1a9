//! Declarative S1 / deixis evaluation: expectations, case checks and reports.
//!
//! Cases with embeddings carry floating-point vectors and are run by the
//! shell; the deixis, expand and clarify-match cases are checked here.
use vstd::prelude::*;

use crate::deixis::{classify_deixis, deixis_spec, DeixisKind};
use crate::expand::{expand_query, expand_spec};
use crate::resolve::{
    match_clarification, match_spec, ClarifyAction, ClarifyCandidate, Clarification,
    ResolveOutcome,
};
use crate::text::{
    chars_of, contains_str, decimal, decimal_chars, has_substring, lemma_seq_join_push, push_chars,
    push_str_chars, seq_join, str_eq, string_of, trim, trim_spec,
};

verus! {

#[derive(Debug, Clone, Copy, PartialEq, Eq, Structural)]
pub enum DeixisKindExpect {
    Plain,
    ContinueHint,
    ReturnNamed,
    ReturnUnspecified,
}

impl DeixisKindExpect {
    pub open spec fn kind(self) -> DeixisKind {
        match self {
            DeixisKindExpect::Plain => DeixisKind::Plain,
            DeixisKindExpect::ContinueHint => DeixisKind::ContinueHint,
            DeixisKindExpect::ReturnNamed => DeixisKind::ReturnNamed,
            DeixisKindExpect::ReturnUnspecified => DeixisKind::ReturnUnspecified,
        }
    }
}

impl From<DeixisKindExpect> for DeixisKind {
    fn from(value: DeixisKindExpect) -> (r: DeixisKind) {
        match value {
            DeixisKindExpect::Plain => DeixisKind::Plain,
            DeixisKindExpect::ContinueHint => DeixisKind::ContinueHint,
            DeixisKindExpect::ReturnNamed => DeixisKind::ReturnNamed,
            DeixisKindExpect::ReturnUnspecified => DeixisKind::ReturnUnspecified,
        }
    }
}

impl vstd::std_specs::convert::FromSpecImpl<DeixisKindExpect> for DeixisKind {
    open spec fn obeys_from_spec() -> bool {
        true
    }

    open spec fn from_spec(v: DeixisKindExpect) -> DeixisKind {
        v.kind()
    }
}

/// Expected resolve outcome of a case.
#[derive(Debug, PartialEq)]
pub enum OutcomeExpect {
    Continue,
    New,
    Return { chunk_index: usize },
    NeedsClarification { min_candidates: Option<usize>, question_contains: Option<String> },
}

/// A candidate of a clarify-match case.
#[derive(Debug)]
pub struct ClarifyCandidateSpec {
    pub label: String,
    pub action: ActionExpect,
}

/// Expected clarification answer.
#[derive(Debug, Clone, Copy, PartialEq, Eq, Structural)]
pub enum ActionExpect {
    ContinueCurrent,
    ReturnTo { chunk_index: usize },
}

impl ActionExpect {
    pub open spec fn action(self) -> ClarifyAction {
        match self {
            ActionExpect::ContinueCurrent => ClarifyAction::ContinueCurrent,
            ActionExpect::ReturnTo { chunk_index } => ClarifyAction::ReturnTo { chunk_index },
        }
    }

    pub open spec fn of_action(a: ClarifyAction) -> ActionExpect {
        match a {
            ClarifyAction::ContinueCurrent => ActionExpect::ContinueCurrent,
            ClarifyAction::ReturnTo { chunk_index } => ActionExpect::ReturnTo { chunk_index },
        }
    }

    pub fn from_action(action: ClarifyAction) -> (r: ActionExpect)
        ensures
            r == ActionExpect::of_action(action),
            r.action() == action,
    {
        match action {
            ClarifyAction::ContinueCurrent => ActionExpect::ContinueCurrent,
            ClarifyAction::ReturnTo { chunk_index } => ActionExpect::ReturnTo { chunk_index },
        }
    }

    /// The action this expectation stands for.
    pub fn to_action(&self) -> (r: ClarifyAction)
        ensures
            r == self.action(),
    {
        match self {
            ActionExpect::ContinueCurrent => ClarifyAction::ContinueCurrent,
            ActionExpect::ReturnTo { chunk_index } => ClarifyAction::ReturnTo {
                chunk_index: *chunk_index,
            },
        }
    }
}

#[derive(Debug, PartialEq, Eq)]
pub struct CaseResult {
    pub id: String,
    pub ok: bool,
    pub detail: String,
}

#[derive(Debug, PartialEq, Eq)]
pub struct SuiteReport {
    pub name: String,
    pub passed: usize,
    pub failed: usize,
    pub results: Vec<CaseResult>,
}

// ---------------------------------------------------------------------------
// Debug renderings used in failure messages.
// ---------------------------------------------------------------------------

/// How `{:?}` prints a deixis kind.
pub open spec fn kind_debug(k: DeixisKind) -> Seq<char> {
    match k {
        DeixisKind::Plain => "Plain"@,
        DeixisKind::ContinueHint => "ContinueHint"@,
        DeixisKind::ReturnNamed => "ReturnNamed"@,
        DeixisKind::ReturnUnspecified => "ReturnUnspecified"@,
    }
}

fn kind_debug_exec(k: DeixisKind) -> (r: &'static str)
    ensures
        r@ == kind_debug(k),
{
    match k {
        DeixisKind::Plain => "Plain",
        DeixisKind::ContinueHint => "ContinueHint",
        DeixisKind::ReturnNamed => "ReturnNamed",
        DeixisKind::ReturnUnspecified => "ReturnUnspecified",
    }
}

/// How `{:?}` prints an expected action.
pub open spec fn action_debug(a: ActionExpect) -> Seq<char> {
    match a {
        ActionExpect::ContinueCurrent => "ContinueCurrent"@,
        ActionExpect::ReturnTo { chunk_index } => "ReturnTo { chunk_index: "@ + decimal(
            chunk_index as nat,
        ) + " }"@,
    }
}

fn push_action_debug(out: &mut Vec<char>, a: ActionExpect)
    ensures
        final(out)@ == old(out)@ + action_debug(a),
{
    match a {
        ActionExpect::ContinueCurrent => push_str_chars(out, "ContinueCurrent"),
        ActionExpect::ReturnTo { chunk_index } => {
            push_str_chars(out, "ReturnTo { chunk_index: ");
            let d = decimal_chars(chunk_index as u64);
            push_chars(out, d.as_slice());
            push_str_chars(out, " }");
        },
    }
}

/// A character inside a quoted string: `"` and `\` are escaped with a
/// backslash, as are NUL, tab, carriage return and newline; any other
/// character stands as it is.
pub open spec fn escape_char(c: char) -> Seq<char> {
    if c == '"' {
        seq!['\\', '"']
    } else if c == '\\' {
        seq!['\\', '\\']
    } else if c == '\n' {
        seq!['\\', 'n']
    } else if c == '\r' {
        seq!['\\', 'r']
    } else if c == '\t' {
        seq!['\\', 't']
    } else if c == '\0' {
        seq!['\\', '0']
    } else {
        seq![c]
    }
}

/// Every character of `s` escaped.
pub open spec fn escaped(s: Seq<char>) -> Seq<char>
    decreases s.len(),
{
    if s.len() == 0 {
        Seq::empty()
    } else {
        escaped(s.drop_last()) + escape_char(s.last())
    }
}

/// A string written between double quotes, escaped.
pub open spec fn quoted(s: Seq<char>) -> Seq<char> {
    seq!['"'] + escaped(s) + seq!['"']
}

/// How a clarification action is written.
pub open spec fn clarify_action_debug(a: ClarifyAction) -> Seq<char> {
    action_debug(ActionExpect::of_action(a))
}

/// How a clarification candidate is written.
pub open spec fn candidate_debug(c: ClarifyCandidate) -> Seq<char> {
    "ClarifyCandidate { label: "@ + quoted(c.label@) + ", action: "@ + clarify_action_debug(
        c.action,
    ) + " }"@
}

/// A list of candidates: `[a, b, ...]`.
pub open spec fn candidates_debug(cs: Seq<ClarifyCandidate>) -> Seq<char> {
    "["@ + seq_join(Seq::new(cs.len(), |i: int| candidate_debug(cs[i])), ", "@) + "]"@
}

/// How a resolve outcome is written in a failure message (the layout of
/// `{:?}`, strings escaped as [`escape_char`] says).
pub open spec fn outcome_debug(o: ResolveOutcome) -> Seq<char> {
    match o {
        ResolveOutcome::Continue => "Continue"@,
        ResolveOutcome::New => "New"@,
        ResolveOutcome::Return { chunk_index } => "Return { chunk_index: "@ + decimal(
            chunk_index as nat,
        ) + " }"@,
        ResolveOutcome::NeedsClarification(c) => "NeedsClarification(Clarification { question: "@
            + quoted(c.question@) + ", candidates: "@ + candidates_debug(c.candidates@) + " })"@,
    }
}

/// How an expected outcome is written in a failure message.
pub open spec fn expect_debug(e: OutcomeExpect) -> Seq<char> {
    match e {
        OutcomeExpect::Continue => "Continue"@,
        OutcomeExpect::New => "New"@,
        OutcomeExpect::Return { chunk_index } => "Return { chunk_index: "@ + decimal(
            chunk_index as nat,
        ) + " }"@,
        OutcomeExpect::NeedsClarification { min_candidates, question_contains } =>
            "NeedsClarification { min_candidates: "@ + match min_candidates {
            Some(n) => "Some("@ + decimal(n as nat) + ")"@,
            None => "None"@,
        } + ", question_contains: "@ + match question_contains {
            Some(q) => "Some("@ + quoted(q@) + ")"@,
            None => "None"@,
        } + " }"@,
    }
}

fn push_quoted(out: &mut Vec<char>, s: &str)
    ensures
        final(out)@ == old(out)@ + quoted(s@),
{
    let ghost start = out@;
    let cs = chars_of(s);
    out.push('"');
    let mut i: usize = 0;
    while i < cs.len()
        invariant
            i <= cs.len(),
            cs@ == s@,
            out@ == start + seq!['"'] + escaped(cs@.take(i as int)),
        decreases cs.len() - i,
    {
        let c = cs[i];
        let ghost before = out@;
        if c == '"' {
            out.push('\\');
            out.push('"');
        } else if c == '\\' {
            out.push('\\');
            out.push('\\');
        } else if c == '\n' {
            out.push('\\');
            out.push('n');
        } else if c == '\r' {
            out.push('\\');
            out.push('r');
        } else if c == '\t' {
            out.push('\\');
            out.push('t');
        } else if c == '\0' {
            out.push('\\');
            out.push('0');
        } else {
            out.push(c);
        }
        assert(out@ =~= before + escape_char(c));
        assert(cs@.take(i + 1).drop_last() =~= cs@.take(i as int));
        i = i + 1;
    }
    assert(cs@.take(cs@.len() as int) =~= cs@);
    out.push('"');
    assert(out@ =~= start + quoted(s@));
}

fn push_decimal(out: &mut Vec<char>, n: usize)
    ensures
        final(out)@ == old(out)@ + decimal(n as nat),
{
    let d = decimal_chars(n as u64);
    push_chars(out, d.as_slice());
}

fn push_candidates(out: &mut Vec<char>, cs: &[ClarifyCandidate])
    ensures
        final(out)@ == old(out)@ + candidates_debug(cs@),
{
    let ghost start = out@;
    let ghost list = Seq::new(cs@.len(), |i: int| candidate_debug(cs@[i]));
    push_str_chars(out, "[");
    let mut i: usize = 0;
    while i < cs.len()
        invariant
            i <= cs.len(),
            list == Seq::new(cs@.len(), |i: int| candidate_debug(cs@[i])),
            out@ == start + "["@ + seq_join(list.take(i as int), ", "@),
        decreases cs.len() - i,
    {
        let ghost before = out@;
        if i > 0 {
            push_str_chars(out, ", ");
        }
        push_str_chars(out, "ClarifyCandidate { label: ");
        push_quoted(out, cs[i].label.as_str());
        push_str_chars(out, ", action: ");
        push_action_debug(out, ActionExpect::from_action(cs[i].action));
        push_str_chars(out, " }");
        proof {
            lemma_seq_join_push(list.take(i as int), ", "@, list[i as int]);
            assert(list.take(i + 1) =~= list.take(i as int).push(list[i as int]));
            if i > 0 {
                assert(out@ =~= before + ", "@ + candidate_debug(cs@[i as int]));
            } else {
                assert(out@ =~= before + candidate_debug(cs@[i as int]));
            }
        }
        i = i + 1;
    }
    assert(list.take(cs@.len() as int) =~= list);
    push_str_chars(out, "]");
}

fn push_outcome_debug(out: &mut Vec<char>, o: &ResolveOutcome)
    ensures
        final(out)@ == old(out)@ + outcome_debug(*o),
{
    let ghost start = out@;
    match o {
        ResolveOutcome::Continue => push_str_chars(out, "Continue"),
        ResolveOutcome::New => push_str_chars(out, "New"),
        ResolveOutcome::Return { chunk_index } => {
            push_str_chars(out, "Return { chunk_index: ");
            push_decimal(out, *chunk_index);
            push_str_chars(out, " }");
            assert(out@ =~= start + outcome_debug(*o));
        },
        ResolveOutcome::NeedsClarification(c) => {
            push_str_chars(out, "NeedsClarification(Clarification { question: ");
            push_quoted(out, c.question.as_str());
            push_str_chars(out, ", candidates: ");
            push_candidates(out, c.candidates.as_slice());
            push_str_chars(out, " })");
            assert(out@ =~= start + outcome_debug(*o));
        },
    }
}

fn push_expect_debug(out: &mut Vec<char>, e: &OutcomeExpect)
    ensures
        final(out)@ == old(out)@ + expect_debug(*e),
{
    let ghost start = out@;
    match e {
        OutcomeExpect::Continue => push_str_chars(out, "Continue"),
        OutcomeExpect::New => push_str_chars(out, "New"),
        OutcomeExpect::Return { chunk_index } => {
            push_str_chars(out, "Return { chunk_index: ");
            push_decimal(out, *chunk_index);
            push_str_chars(out, " }");
            assert(out@ =~= start + expect_debug(*e));
        },
        OutcomeExpect::NeedsClarification { min_candidates, question_contains } => {
            push_str_chars(out, "NeedsClarification { min_candidates: ");
            let ghost a = out@;
            match min_candidates {
                Some(n) => {
                    push_str_chars(out, "Some(");
                    push_decimal(out, *n);
                    push_str_chars(out, ")");
                },
                None => push_str_chars(out, "None"),
            }
            let ghost b = out@;
            push_str_chars(out, ", question_contains: ");
            match question_contains {
                Some(q) => {
                    push_str_chars(out, "Some(");
                    push_quoted(out, q.as_str());
                    push_str_chars(out, ")");
                },
                None => push_str_chars(out, "None"),
            }
            push_str_chars(out, " }");
            assert(out@ =~= start + expect_debug(*e));
        },
    }
}

// ---------------------------------------------------------------------------
// Case checks.
// ---------------------------------------------------------------------------

/// Check a deixis case: the classification must be the expected kind.
pub fn eval_deixis_case(user: &str, expect: DeixisKindExpect) -> (r: Result<(), String>)
    ensures
        r is Ok <==> deixis_spec(user@) == expect.kind(),
        r matches Err(msg) ==> msg@ == "deixis got "@ + kind_debug(deixis_spec(user@))
            + ", expect "@ + kind_debug(expect.kind()),
{
    let got = classify_deixis(user);
    let want: DeixisKind = DeixisKind::from(expect);
    if got != want {
        let mut msg: Vec<char> = Vec::new();
        push_str_chars(&mut msg, "deixis got ");
        push_str_chars(&mut msg, kind_debug_exec(got));
        push_str_chars(&mut msg, ", expect ");
        push_str_chars(&mut msg, kind_debug_exec(want));
        return Err(string_of(msg.as_slice()));
    }
    Ok(())
}

/// What an expand case checks, in order.
pub open spec fn expand_case_error(
    user: Seq<char>,
    got: Seq<char>,
    expect_expanded: Option<Seq<char>>,
    expect_contains: Option<Seq<char>>,
    expect_unchanged: bool,
) -> Option<Seq<char>> {
    if expect_unchanged && got != trim_spec(user) {
        Some("expected unchanged `"@ + user + "`, got `"@ + got + "`"@)
    } else if expect_expanded is Some && got != expect_expanded->0 {
        Some("expanded got `"@ + got + "`, expect `"@ + expect_expanded->0 + "`"@)
    } else if expect_contains is Some && !has_substring(got, expect_contains->0) {
        Some("expanded `"@ + got + "` missing `"@ + expect_contains->0 + "`"@)
    } else {
        None
    }
}

/// Check an expand case: unchanged / exact / containment expectations.
pub fn eval_expand_case(
    user: &str,
    previous_user: Option<&str>,
    expect_expanded: Option<&str>,
    expect_expanded_contains: Option<&str>,
    expect_unchanged: bool,
) -> (r: Result<(), String>)
    ensures
        ({
            let got = expand_spec(
                user@,
                match previous_user {
                    Some(p) => Some(p@),
                    None => None,
                },
            );
            let err = expand_case_error(
                user@,
                got,
                match expect_expanded {
                    Some(e) => Some(e@),
                    None => None,
                },
                match expect_expanded_contains {
                    Some(e) => Some(e@),
                    None => None,
                },
                expect_unchanged,
            );
            match err {
                None => r is Ok,
                Some(m) => r matches Err(msg) && msg@ == m,
            }
        }),
{
    let got = expand_query(user, previous_user);
    let trimmed = trim(user);
    if expect_unchanged && !str_eq(got.as_str(), trimmed) {
        let mut msg: Vec<char> = Vec::new();
        push_str_chars(&mut msg, "expected unchanged `");
        push_str_chars(&mut msg, user);
        push_str_chars(&mut msg, "`, got `");
        push_str_chars(&mut msg, got.as_str());
        push_str_chars(&mut msg, "`");
        return Err(string_of(msg.as_slice()));
    }
    match expect_expanded {
        Some(exact) => {
            if !str_eq(got.as_str(), exact) {
                let mut msg: Vec<char> = Vec::new();
                push_str_chars(&mut msg, "expanded got `");
                push_str_chars(&mut msg, got.as_str());
                push_str_chars(&mut msg, "`, expect `");
                push_str_chars(&mut msg, exact);
                push_str_chars(&mut msg, "`");
                return Err(string_of(msg.as_slice()));
            }
        },
        None => {},
    }
    match expect_expanded_contains {
        Some(needle) => {
            let gc = chars_of(got.as_str());
            if !contains_str(gc.as_slice(), needle) {
                let mut msg: Vec<char> = Vec::new();
                push_str_chars(&mut msg, "expanded `");
                push_str_chars(&mut msg, got.as_str());
                push_str_chars(&mut msg, "` missing `");
                push_str_chars(&mut msg, needle);
                push_str_chars(&mut msg, "`");
                return Err(string_of(msg.as_slice()));
            }
        },
        None => {},
    }
    Ok(())
}

/// The clarification a clarify-match case builds from its candidates.
pub open spec fn case_candidates(cs: Seq<ClarifyCandidateSpec>) -> Seq<ClarifyCandidate> {
    Seq::new(cs.len(), |i: int| ClarifyCandidate { label: cs[i].label, action: cs[i].action.action() })
}

/// What a clarify-match case reports for the action the reply selected
/// (`got`): `None` when it passes. A case that expects no match passes
/// exactly when nothing matches; otherwise a match is required and, when an
/// action is expected, it must be that action.
pub open spec fn clarify_case_error(
    user: Seq<char>,
    got: Option<ClarifyAction>,
    expect_action: Option<ActionExpect>,
    expect_no_match: bool,
) -> Option<Seq<char>> {
    match got {
        None => if expect_no_match {
            None
        } else {
            Some(
                "no match for `"@ + user + "`"@ + match expect_action {
                    Some(e) => ", expect "@ + action_debug(e),
                    None => Seq::empty(),
                },
            )
        },
        Some(a) => if expect_no_match {
            Some("expected no match for `"@ + user + "`, got "@ + action_debug(ActionExpect::of_action(a)))
        } else {
            match expect_action {
                Some(e) => if ActionExpect::of_action(a) == e {
                    None
                } else {
                    Some(
                        "action got "@ + action_debug(ActionExpect::of_action(a)) + ", expect "@
                            + action_debug(e),
                    )
                },
                None => None,
            }
        },
    }
}

/// Check a clarify-match case: the reply must select the expected action,
/// or select nothing when no match is expected.
pub fn eval_clarify_case(
    user: &str,
    candidates: &[ClarifyCandidateSpec],
    expect_action: Option<ActionExpect>,
    expect_no_match: bool,
) -> (r: Result<(), String>)
    ensures
        match clarify_case_error(
            user@,
            match_spec(user@, case_candidates(candidates@)),
            expect_action,
            expect_no_match,
        ) {
            None => r is Ok,
            Some(m) => r matches Err(msg) && msg@ == m,
        },
{
    let mut cands: Vec<ClarifyCandidate> = Vec::new();
    let mut i: usize = 0;
    while i < candidates.len()
        invariant
            i <= candidates.len(),
            cands@ == case_candidates(candidates@).take(i as int),
        decreases candidates.len() - i,
    {
        cands.push(
            ClarifyCandidate {
                label: candidates[i].label.clone(),
                action: candidates[i].action.to_action(),
            },
        );
        assert(cands@ =~= case_candidates(candidates@).take(i + 1));
        i = i + 1;
    }
    assert(cands@ =~= case_candidates(candidates@));
    let clarification = Clarification { question: "q".to_owned(), candidates: cands };
    match match_clarification(user, &clarification) {
        Some(action) => {
            let got = ActionExpect::from_action(action);
            if expect_no_match {
                let mut msg: Vec<char> = Vec::new();
                push_str_chars(&mut msg, "expected no match for `");
                push_str_chars(&mut msg, user);
                push_str_chars(&mut msg, "`, got ");
                push_action_debug(&mut msg, got);
                return Err(string_of(msg.as_slice()));
            }
            match expect_action {
                Some(want) => {
                    if got != want {
                        let mut msg: Vec<char> = Vec::new();
                        push_str_chars(&mut msg, "action got ");
                        push_action_debug(&mut msg, got);
                        push_str_chars(&mut msg, ", expect ");
                        push_action_debug(&mut msg, want);
                        return Err(string_of(msg.as_slice()));
                    }
                    Ok(())
                },
                None => Ok(()),
            }
        },
        None => {
            if expect_no_match {
                return Ok(());
            }
            let mut msg: Vec<char> = Vec::new();
            push_str_chars(&mut msg, "no match for `");
            push_str_chars(&mut msg, user);
            push_str_chars(&mut msg, "`");
            match expect_action {
                Some(want) => {
                    push_str_chars(&mut msg, ", expect ");
                    push_action_debug(&mut msg, want);
                },
                None => {},
            }
            Err(string_of(msg.as_slice()))
        },
    }
}

/// The message of an outcome of the wrong kind (or return index).
pub open spec fn outcome_mismatch(got: ResolveOutcome, expect: OutcomeExpect) -> Seq<char> {
    "outcome got "@ + outcome_debug(got) + ", expect "@ + expect_debug(expect)
}

/// What comparing a resolve outcome with its expectation reports: `None`
/// when it matches (see [`match_outcome`]).
pub open spec fn outcome_matches(got: ResolveOutcome, expect: OutcomeExpect) -> Option<
    Seq<char>,
> {
    match (got, expect) {
        (ResolveOutcome::Continue, OutcomeExpect::Continue) => None,
        (ResolveOutcome::New, OutcomeExpect::New) => None,
        (ResolveOutcome::Return { chunk_index: g }, OutcomeExpect::Return { chunk_index: e }) => if g
            == e {
            None
        } else {
            Some(outcome_mismatch(got, expect))
        },
        (
            ResolveOutcome::NeedsClarification(c),
            OutcomeExpect::NeedsClarification { min_candidates, question_contains },
        ) => if min_candidates is Some && c.candidates@.len() < min_candidates->0 {
            Some(
                "clarify candidates "@ + decimal(c.candidates@.len()) + " < min "@ + decimal(
                    min_candidates->0 as nat,
                ),
            )
        } else if question_contains is Some && !has_substring(
            c.question@,
            question_contains->0@,
        ) {
            Some("question `"@ + c.question@ + "` missing `"@ + question_contains->0@ + "`"@)
        } else {
            None
        },
        _ => Some(outcome_mismatch(got, expect)),
    }
}

/// Compare a resolve outcome with its expectation. A mismatch of the outcome
/// kind (or return index) reports both values.
pub fn match_outcome(got: &ResolveOutcome, expect: &OutcomeExpect) -> (r: Result<(), String>)
    ensures
        match outcome_matches(*got, *expect) {
            Some(m) => r matches Err(msg) && msg@ == m,
            None => r is Ok,
        },
{
    match (got, expect) {
        (ResolveOutcome::Continue, OutcomeExpect::Continue) => {
            return Ok(());
        },
        (ResolveOutcome::New, OutcomeExpect::New) => {
            return Ok(());
        },
        (ResolveOutcome::Return { chunk_index: g }, OutcomeExpect::Return { chunk_index: e }) => {
            if *g == *e {
                return Ok(());
            }
        },
        (
            ResolveOutcome::NeedsClarification(c),
            OutcomeExpect::NeedsClarification { min_candidates, question_contains },
        ) => {
            match min_candidates {
                Some(min) => {
                    if c.candidates.len() < *min {
                        let mut msg: Vec<char> = Vec::new();
                        push_str_chars(&mut msg, "clarify candidates ");
                        let n = decimal_chars(c.candidates.len() as u64);
                        push_chars(&mut msg, n.as_slice());
                        push_str_chars(&mut msg, " < min ");
                        let m = decimal_chars(*min as u64);
                        push_chars(&mut msg, m.as_slice());
                        return Err(string_of(msg.as_slice()));
                    }
                },
                None => {},
            }
            match question_contains {
                Some(needle) => {
                    let qc = chars_of(c.question.as_str());
                    if !contains_str(qc.as_slice(), needle.as_str()) {
                        let mut msg: Vec<char> = Vec::new();
                        push_str_chars(&mut msg, "question `");
                        push_str_chars(&mut msg, c.question.as_str());
                        push_str_chars(&mut msg, "` missing `");
                        push_str_chars(&mut msg, needle.as_str());
                        push_str_chars(&mut msg, "`");
                        return Err(string_of(msg.as_slice()));
                    }
                },
                None => {},
            }
            return Ok(());
        },
        _ => {},
    }
    let mut msg: Vec<char> = Vec::new();
    push_str_chars(&mut msg, "outcome got ");
    push_outcome_debug(&mut msg, got);
    push_str_chars(&mut msg, ", expect ");
    push_expect_debug(&mut msg, expect);
    Err(string_of(msg.as_slice()))
}

/// Result of one case from its check.
pub fn case_result(id: &str, outcome: Result<(), String>) -> (r: CaseResult)
    ensures
        r.id@ == id@,
        r.ok == outcome is Ok,
        match outcome {
            Ok(_) => r.detail@.len() == 0,
            Err(m) => r.detail == m,
        },
{
    match outcome {
        Ok(()) => CaseResult { id: id.to_owned(), ok: true, detail: String::new() },
        Err(message) => CaseResult { id: id.to_owned(), ok: false, detail: message },
    }
}

/// Number of passing results.
pub open spec fn count_ok(rs: Seq<CaseResult>) -> nat
    decreases rs.len(),
{
    if rs.len() == 0 {
        0
    } else {
        count_ok(rs.drop_last()) + if rs.last().ok {
            1nat
        } else {
            0nat
        }
    }
}

/// Every result counted once, as passed or failed.
pub proof fn lemma_count_ok_bounded(rs: Seq<CaseResult>)
    ensures
        count_ok(rs) <= rs.len(),
    decreases rs.len(),
{
    if rs.len() > 0 {
        lemma_count_ok_bounded(rs.drop_last());
    }
}

impl SuiteReport {
    /// Tally case results into a report.
    pub fn from_results(name: String, results: Vec<CaseResult>) -> (r: SuiteReport)
        ensures
            r.name == name,
            r.results@ == results@,
            r.passed == count_ok(results@),
            r.failed == results@.len() - count_ok(results@),
    {
        let mut passed: usize = 0;
        let mut failed: usize = 0;
        let mut i: usize = 0;
        while i < results.len()
            invariant
                i <= results.len(),
                passed == count_ok(results@.take(i as int)),
                failed == i - count_ok(results@.take(i as int)),
            decreases results.len() - i,
        {
            proof {
                assert(results@.take(i + 1).drop_last() =~= results@.take(i as int));
                lemma_count_ok_bounded(results@.take(i as int));
            }
            if results[i].ok {
                passed = passed + 1;
            } else {
                failed = failed + 1;
            }
            i = i + 1;
        }
        assert(results@.take(results.len() as int) =~= results@);
        SuiteReport { name, passed, failed, results }
    }

    pub fn all_passed(&self) -> (r: bool)
        ensures
            r == (self.failed == 0),
    {
        self.failed == 0
    }

    /// The report as text: a header line, then one PASS / FAIL line per case.
    pub fn render(&self) -> (r: String)
        requires
            self.passed + self.failed <= usize::MAX,
        ensures
            r@ == report_text(*self),
    {
        let mut out: Vec<char> = Vec::new();
        push_str_chars(&mut out, "suite `");
        if self.name.as_str().is_empty() {
            push_str_chars(&mut out, "(unnamed)");
        } else {
            push_str_chars(&mut out, self.name.as_str());
        }
        push_str_chars(&mut out, "`: ");
        let p = decimal_chars(self.passed as u64);
        push_chars(&mut out, p.as_slice());
        push_str_chars(&mut out, "/");
        let total: usize = self.passed + self.failed;
        let t = decimal_chars(total as u64);
        push_chars(&mut out, t.as_slice());
        push_str_chars(&mut out, " passed\n");
        let ghost head = out@;
        let mut i: usize = 0;
        while i < self.results.len()
            invariant
                i <= self.results.len(),
                head == report_head(*self),
                out@ == head + result_lines(self.results@.take(i as int)),
            decreases self.results.len() - i,
        {
            let res = &self.results[i];
            let ghost before = out@;
            if res.ok {
                push_str_chars(&mut out, "  PASS ");
                push_str_chars(&mut out, res.id.as_str());
                push_str_chars(&mut out, "\n");
            } else {
                push_str_chars(&mut out, "  FAIL ");
                push_str_chars(&mut out, res.id.as_str());
                push_str_chars(&mut out, ": ");
                push_str_chars(&mut out, res.detail.as_str());
                push_str_chars(&mut out, "\n");
            }
            proof {
                assert(self.results@.take(i + 1).drop_last() =~= self.results@.take(i as int));
                assert(out@ =~= head + result_lines(self.results@.take(i + 1)));
            }
            i = i + 1;
        }
        assert(self.results@.take(self.results.len() as int) =~= self.results@);
        string_of(out.as_slice())
    }
}

/// Header line of a report.
pub open spec fn report_head(r: SuiteReport) -> Seq<char> {
    "suite `"@ + (if r.name@.len() == 0 {
        "(unnamed)"@
    } else {
        r.name@
    }) + "`: "@ + decimal(r.passed as nat) + "/"@ + decimal((r.passed + r.failed) as nat)
        + " passed\n"@
}

/// One line of a report.
pub open spec fn result_line(c: CaseResult) -> Seq<char> {
    if c.ok {
        "  PASS "@ + c.id@ + "\n"@
    } else {
        "  FAIL "@ + c.id@ + ": "@ + c.detail@ + "\n"@
    }
}

/// The lines of all results.
pub open spec fn result_lines(rs: Seq<CaseResult>) -> Seq<char>
    decreases rs.len(),
{
    if rs.len() == 0 {
        Seq::empty()
    } else {
        result_lines(rs.drop_last()) + result_line(rs.last())
    }
}

/// The whole report text.
pub open spec fn report_text(r: SuiteReport) -> Seq<char> {
    report_head(r) + result_lines(r.results@)
}

/// A clarification outcome with enough candidates meets an expectation on
/// its question exactly when the question contains the expected text.
pub proof fn law_question_expectation(c: Clarification, min: Option<usize>, needle: String)
    requires
        min matches Some(n) ==> c.candidates@.len() >= n,
    ensures
        outcome_matches(
            ResolveOutcome::NeedsClarification(c),
            OutcomeExpect::NeedsClarification { min_candidates: min, question_contains: Some(needle) },
        ) is None <==> has_substring(c.question@, needle@),
{
}

} // verus!
