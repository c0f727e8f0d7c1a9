//! Rule-based deixis classification for S1 query shaping / topic resolve.
use vstd::prelude::*;

use crate::text::{
    char_is_whitespace, chars_of, contains_str, has_substring, is_whitespace, remove_all,
    remove_all_exec, seq_eq_str, str_to_lowercase, string_of, to_lowercase, trim, trim_spec,
    lemma_trim_idempotent,
};

verus! {

/// How an utterance uses (or does not use) underspecified reference.
#[derive(Debug, Clone, Copy, PartialEq, Eq, Structural)]
pub enum DeixisKind {
    /// Normal topical input — embed as-is.
    Plain,
    /// Continues the current topic via deixis ("それ", "詳しく", …).
    ContinueHint,
    /// Returns to a *named* past topic ("さっきの地下鉄の話").
    ReturnNamed,
    /// Returns without naming the topic ("さっきの話", "前の話に戻って").
    ReturnUnspecified,
}

// ---------------------------------------------------------------------------
// Lexicon (as specifications over the lowercased utterance).
// ---------------------------------------------------------------------------

/// The lowercased utterance holds a topic-return marker.
pub open spec fn return_marker(l: Seq<char>) -> bool {
    ||| has_substring(l, "戻って"@)
    ||| has_substring(l, "さっきの"@)
    ||| has_substring(l, "前の話"@)
    ||| has_substring(l, "前のやつ"@)
    ||| has_substring(l, "go back"@)
    ||| has_substring(l, "back to"@)
    ||| has_substring(l, "earlier"@)
    ||| has_substring(l, "回到"@)
    ||| has_substring(l, "刚才的话"@)
    ||| has_substring(l, "之前的话题"@)
    ||| has_substring(l, "上一个话题"@)
}

/// The lowercased utterance holds a continue-deixis marker.
pub open spec fn continue_marker(l: Seq<char>) -> bool {
    ||| has_substring(l, "それ"@)
    ||| has_substring(l, "これ"@)
    ||| has_substring(l, "あれ"@)
    ||| has_substring(l, "その"@)
    ||| has_substring(l, "この"@)
    ||| has_substring(l, "あの"@)
    ||| has_substring(l, "それについて"@)
    ||| has_substring(l, "これについて"@)
    ||| has_substring(l, "that"@)
    ||| has_substring(l, "this"@)
    ||| has_substring(l, "it "@)
    ||| has_substring(l, "it's"@)
    ||| has_substring(l, "what about"@)
    ||| has_substring(l, "and the"@)
    ||| has_substring(l, "那个"@)
    ||| has_substring(l, "这个"@)
    ||| has_substring(l, "关于这个"@)
    ||| has_substring(l, "关于那个"@)
}

/// The lowercased utterance holds a bare follow-up word.
pub open spec fn bare_marker(l: Seq<char>) -> bool {
    ||| has_substring(l, "なぜ"@)
    ||| has_substring(l, "なんで"@)
    ||| has_substring(l, "どうして"@)
    ||| has_substring(l, "もっと"@)
    ||| has_substring(l, "詳しく"@)
    ||| has_substring(l, "続き"@)
    ||| has_substring(l, "more"@)
    ||| has_substring(l, "why"@)
    ||| has_substring(l, "how"@)
    ||| has_substring(l, "ok"@)
    ||| has_substring(l, "yes"@)
    ||| has_substring(l, "no"@)
    ||| has_substring(l, "为什么"@)
    ||| has_substring(l, "详细一点"@)
    ||| has_substring(l, "再说详细"@)
    ||| has_substring(l, "继续"@)
}

/// Return scaffolding stripped, pattern by pattern, in this order.
pub open spec fn strip_scaffolding(l: Seq<char>) -> Seq<char> {
    let t = remove_all(l, "さっきの"@);
    let t = remove_all(t, "前の話"@);
    let t = remove_all(t, "前のやつ"@);
    let t = remove_all(t, "前の"@);
    let t = remove_all(t, "話に戻って"@);
    let t = remove_all(t, "に戻って"@);
    let t = remove_all(t, "戻って"@);
    let t = remove_all(t, "go back to"@);
    let t = remove_all(t, "go back"@);
    let t = remove_all(t, "back to"@);
    let t = remove_all(t, "earlier"@);
    let t = remove_all(t, "なんだけど"@);
    let t = remove_all(t, "だけど"@);
    let t = remove_all(t, "けれど"@);
    let t = remove_all(t, "の話"@);
    let t = remove_all(t, "話"@);
    let t = remove_all(t, "について"@);
    let t = remove_all(t, "教えて"@);
    let t = remove_all(t, "回到刚才的"@);
    let t = remove_all(t, "回到刚才"@);
    let t = remove_all(t, "回到"@);
    let t = remove_all(t, "刚才的话"@);
    let t = remove_all(t, "刚才的"@);
    let t = remove_all(t, "刚才"@);
    let t = remove_all(t, "之前的话题"@);
    let t = remove_all(t, "上一个话题"@);
    let t = remove_all(t, "的话题"@);
    remove_all(t, "话题"@)
}

/// Punctuation dropped from the residue.
pub open spec fn is_residue_punct(c: char) -> bool {
    c == '、' || c == '。' || c == '？' || c == '?' || c == '!' || c == ',' || c == '.' || c
        == '：' || c == ':'
}

/// Characters kept in the residue: neither whitespace nor punctuation.
pub open spec fn keep_in_residue(c: char) -> bool {
    !char_is_whitespace(c) && !is_residue_punct(c)
}

/// `s` with every character that `keep_in_residue` rejects left out.
pub open spec fn residue_filter(s: Seq<char>) -> Seq<char>
    decreases s.len(),
{
    if s.len() == 0 {
        s
    } else if keep_in_residue(s.last()) {
        residue_filter(s.drop_last()).push(s.last())
    } else {
        residue_filter(s.drop_last())
    }
}

/// What is left of a lowercased utterance once the return scaffolding is gone.
pub open spec fn residue_of(l: Seq<char>) -> Seq<char> {
    residue_filter(strip_scaffolding(l))
}

/// A residue that is only a filler word.
pub open spec fn is_filler(r: Seq<char>) -> bool {
    r == "けど"@ || r == "なの"@ || r == "です"@ || r == "ます"@ || r == "して"@ || r == "どう"@
        || r == "なに"@ || r == "何"@
}

/// A character that can carry a topic name.
pub open spec fn is_cue_char(c: char) -> bool {
    ||| ('0' <= c && c <= '9')
    ||| ('a' <= c && c <= 'z')
    ||| ('A' <= c && c <= 'Z')
    ||| ('一' <= c && c <= '龯')
    ||| ('ァ' <= c && c <= 'ヶ')
    ||| ('ぁ' <= c && c <= 'ん')
}

/// The residue names a topic (given the lowercased utterance).
pub open spec fn name_cue(l: Seq<char>) -> bool {
    let r = residue_of(l);
    &&& r.len() >= 2
    &&& !is_filler(r)
    &&& exists|i: int| 0 <= i < r.len() && is_cue_char(r[i])
}

/// Short utterance of a follow-up shape (`t` trimmed, `l` its lowercase).
pub open spec fn bare_followup(t: Seq<char>, l: Seq<char>) -> bool {
    t.len() <= 12 && (bare_marker(l) || t.len() <= 4)
}

/// The deixis class of a non-empty trimmed utterance `t` whose lowercase is `l`.
pub open spec fn deixis_from(t: Seq<char>, l: Seq<char>) -> DeixisKind {
    if return_marker(l) {
        if name_cue(l) {
            DeixisKind::ReturnNamed
        } else {
            DeixisKind::ReturnUnspecified
        }
    } else if continue_marker(l) || bare_followup(t, l) {
        DeixisKind::ContinueHint
    } else {
        DeixisKind::Plain
    }
}

/// The deixis class of a raw utterance.
pub open spec fn deixis_spec(user: Seq<char>) -> DeixisKind {
    let t = trim_spec(user);
    if t.len() == 0 {
        DeixisKind::Plain
    } else {
        deixis_from(t, str_to_lowercase(t))
    }
}

// ---------------------------------------------------------------------------
// Executable rules.
// ---------------------------------------------------------------------------

/// Classify deixis for topic resolution (lexicon only — no embedding).
pub fn classify_deixis(user: &str) -> (k: DeixisKind)
    ensures
        k == deixis_spec(user@),
{
    let trimmed = trim(user);
    if trimmed.is_empty() {
        return DeixisKind::Plain;
    }
    let lower = to_lowercase(trimmed);
    classify_lowered(trimmed, lower.as_str())
}

/// Classifies a non-empty trimmed utterance given its lowercase form
/// (the rules that follow the `to_lowercase` call).
pub fn classify_lowered(trimmed: &str, lower: &str) -> (k: DeixisKind)
    ensures
        k == deixis_from(trimmed@, lower@),
{
    let t = chars_of(trimmed);
    let l = chars_of(lower);
    if return_marker_exec(l.as_slice()) {
        if name_cue_exec(l.as_slice()) {
            DeixisKind::ReturnNamed
        } else {
            DeixisKind::ReturnUnspecified
        }
    } else if continue_marker_exec(l.as_slice()) || bare_followup_exec(t.len(), l.as_slice()) {
        DeixisKind::ContinueHint
    } else {
        DeixisKind::Plain
    }
}

/// Whether the utterance asks to go back to an earlier topic.
pub fn looks_topic_return(s: &str) -> (r: bool)
    ensures
        r == return_marker(str_to_lowercase(s@)),
{
    let lower = to_lowercase(s);
    let l = chars_of(lower.as_str());
    return_marker_exec(l.as_slice())
}

fn return_marker_exec(l: &[char]) -> (r: bool)
    ensures
        r == return_marker(l@),
{
    contains_str(l, "戻って") || contains_str(l, "さっきの") || contains_str(l, "前の話")
        || contains_str(l, "前のやつ") || contains_str(l, "go back") || contains_str(l, "back to")
        || contains_str(l, "earlier") || contains_str(l, "回到") || contains_str(l, "刚才的话")
        || contains_str(l, "之前的话题") || contains_str(l, "上一个话题")
}

/// Strip return scaffolding; leftover content is treated as a topic name cue.
pub fn topic_cue_residue(s: &str) -> (r: String)
    ensures
        r@ == residue_of(str_to_lowercase(s@)),
{
    let lower = to_lowercase(s);
    let l = chars_of(lower.as_str());
    let res = residue_exec(l.as_slice());
    string_of(res.as_slice())
}

fn strip_scaffolding_exec(l: &[char]) -> (r: Vec<char>)
    ensures
        r@ == strip_scaffolding(l@),
{
    let t = remove_all_exec(l, "さっきの");
    let t = remove_all_exec(t.as_slice(), "前の話");
    let t = remove_all_exec(t.as_slice(), "前のやつ");
    let t = remove_all_exec(t.as_slice(), "前の");
    let t = remove_all_exec(t.as_slice(), "話に戻って");
    let t = remove_all_exec(t.as_slice(), "に戻って");
    let t = remove_all_exec(t.as_slice(), "戻って");
    let t = remove_all_exec(t.as_slice(), "go back to");
    let t = remove_all_exec(t.as_slice(), "go back");
    let t = remove_all_exec(t.as_slice(), "back to");
    let t = remove_all_exec(t.as_slice(), "earlier");
    let t = remove_all_exec(t.as_slice(), "なんだけど");
    let t = remove_all_exec(t.as_slice(), "だけど");
    let t = remove_all_exec(t.as_slice(), "けれど");
    let t = remove_all_exec(t.as_slice(), "の話");
    let t = remove_all_exec(t.as_slice(), "話");
    let t = remove_all_exec(t.as_slice(), "について");
    let t = remove_all_exec(t.as_slice(), "教えて");
    let t = remove_all_exec(t.as_slice(), "回到刚才的");
    let t = remove_all_exec(t.as_slice(), "回到刚才");
    let t = remove_all_exec(t.as_slice(), "回到");
    let t = remove_all_exec(t.as_slice(), "刚才的话");
    let t = remove_all_exec(t.as_slice(), "刚才的");
    let t = remove_all_exec(t.as_slice(), "刚才");
    let t = remove_all_exec(t.as_slice(), "之前的话题");
    let t = remove_all_exec(t.as_slice(), "上一个话题");
    let t = remove_all_exec(t.as_slice(), "的话题");
    remove_all_exec(t.as_slice(), "话题")
}

fn is_residue_punct_exec(c: char) -> (r: bool)
    ensures
        r == is_residue_punct(c),
{
    c == '、' || c == '。' || c == '？' || c == '?' || c == '!' || c == ',' || c == '.' || c
        == '：' || c == ':'
}

fn residue_filter_exec(s: &[char]) -> (r: Vec<char>)
    ensures
        r@ == residue_filter(s@),
{
    let mut out: Vec<char> = Vec::new();
    let mut i: usize = 0;
    while i < s.len()
        invariant
            i <= s.len(),
            out@ == residue_filter(s@.take(i as int)),
        decreases s.len() - i,
    {
        let c = s[i];
        proof {
            let next = s@.take(i + 1);
            assert(next.drop_last() =~= s@.take(i as int));
            assert(next.last() == c);
        }
        if !is_whitespace(c) && !is_residue_punct_exec(c) {
            out.push(c);
        }
        i = i + 1;
    }
    assert(s@.take(s.len() as int) =~= s@);
    out
}

fn residue_exec(l: &[char]) -> (r: Vec<char>)
    ensures
        r@ == residue_of(l@),
{
    let t = strip_scaffolding_exec(l);
    residue_filter_exec(t.as_slice())
}

fn is_filler_exec(r: &[char]) -> (b: bool)
    ensures
        b == is_filler(r@),
{
    seq_eq_str(r, "けど") || seq_eq_str(r, "なの") || seq_eq_str(r, "です") || seq_eq_str(r, "ます")
        || seq_eq_str(r, "して") || seq_eq_str(r, "どう") || seq_eq_str(r, "なに") || seq_eq_str(
        r,
        "何",
    )
}

fn is_cue_char_exec(c: char) -> (r: bool)
    ensures
        r == is_cue_char(c),
{
    ('0' <= c && c <= '9') || ('a' <= c && c <= 'z') || ('A' <= c && c <= 'Z') || ('一' <= c && c
        <= '龯') || ('ァ' <= c && c <= 'ヶ') || ('ぁ' <= c && c <= 'ん')
}

fn name_cue_exec(l: &[char]) -> (b: bool)
    ensures
        b == name_cue(l@),
{
    let r = residue_exec(l);
    if r.len() < 2 {
        return false;
    }
    if is_filler_exec(r.as_slice()) {
        return false;
    }
    let mut i: usize = 0;
    while i < r.len()
        invariant
            i <= r.len(),
            r@ == residue_of(l@),
            r@.len() >= 2,
            !is_filler(r@),
            forall|k: int| 0 <= k < i ==> !is_cue_char(r@[k]),
        decreases r.len() - i,
    {
        if is_cue_char_exec(r[i]) {
            proof {
                let rr = residue_of(l@);
                assert(rr == r@);
                assert(0 <= i < rr.len() && is_cue_char(rr[i as int]));
                assert(!is_filler(rr));
            }
            return true;
        }
        i = i + 1;
    }
    false
}

/// True when residue looks like a topic name, not leftover particles.
pub fn has_topic_name_cue(s: &str) -> (b: bool)
    ensures
        b == name_cue(str_to_lowercase(s@)),
{
    let lower = to_lowercase(s);
    let l = chars_of(lower.as_str());
    name_cue_exec(l.as_slice())
}

fn continue_marker_exec(l: &[char]) -> (r: bool)
    ensures
        r == continue_marker(l@),
{
    contains_str(l, "それ") || contains_str(l, "これ") || contains_str(l, "あれ") || contains_str(
        l,
        "その",
    ) || contains_str(l, "この") || contains_str(l, "あの") || contains_str(l, "それについて")
        || contains_str(l, "これについて") || contains_str(l, "that") || contains_str(l, "this")
        || contains_str(l, "it ") || contains_str(l, "it's") || contains_str(l, "what about")
        || contains_str(l, "and the") || contains_str(l, "那个") || contains_str(l, "这个")
        || contains_str(l, "关于这个") || contains_str(l, "关于那个")
}

/// Whether the utterance continues the current topic via deixis.
pub fn looks_continue_deixis(s: &str) -> (r: bool)
    ensures
        r == continue_marker(str_to_lowercase(s@)),
{
    let lower = to_lowercase(s);
    let l = chars_of(lower.as_str());
    continue_marker_exec(l.as_slice())
}

fn bare_marker_exec(l: &[char]) -> (r: bool)
    ensures
        r == bare_marker(l@),
{
    contains_str(l, "なぜ") || contains_str(l, "なんで") || contains_str(l, "どうして")
        || contains_str(l, "もっと") || contains_str(l, "詳しく") || contains_str(l, "続き")
        || contains_str(l, "more") || contains_str(l, "why") || contains_str(l, "how")
        || contains_str(l, "ok") || contains_str(l, "yes") || contains_str(l, "no")
        || contains_str(l, "为什么") || contains_str(l, "详细一点") || contains_str(l, "再说详细")
        || contains_str(l, "继续")
}

fn bare_followup_exec(n_chars: usize, l: &[char]) -> (r: bool)
    ensures
        r == (n_chars <= 12 && (bare_marker(l@) || n_chars <= 4)),
{
    if n_chars > 12 {
        return false;
    }
    bare_marker_exec(l) || n_chars <= 4
}

/// Whether the utterance is a short bare follow-up ("なぜ？", "more").
pub fn looks_bare_followup(s: &str) -> (r: bool)
    ensures
        r == bare_followup(s@, str_to_lowercase(s@)),
{
    let t = chars_of(s);
    let lower = to_lowercase(s);
    let l = chars_of(lower.as_str());
    bare_followup_exec(t.len(), l.as_slice())
}


/// Surrounding whitespace never changes the classification.
pub proof fn law_deixis_ignores_surrounding_whitespace(user: Seq<char>)
    ensures
        deixis_spec(trim_spec(user)) == deixis_spec(user),
{
    lemma_trim_idempotent(user);
}

/// A short follow-up, at most four characters once trimmed, with no
/// topic-return marker, continues the current topic whatever its words.
pub proof fn law_short_utterance_continues(user: Seq<char>)
    requires
        0 < trim_spec(user).len() <= 4,
        !return_marker(str_to_lowercase(trim_spec(user))),
    ensures
        deixis_spec(user) == DeixisKind::ContinueHint,
{
}

} // verus!
