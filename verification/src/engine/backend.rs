//! Inference backend selection for LiteRT-LM.
use vstd::prelude::*;

use crate::text::{
    char_is_whitespace, chars_of, push_str_chars, seq_eq_str, string_of, trim, trim_end_spec,
    trim_spec, trim_start_spec,
};

verus! {

#[derive(Debug, Clone, Copy, PartialEq, Eq, Structural)]
pub enum InferenceBackend {
    Cpu,
    Gpu,
}

/// A backend name that is neither `cpu`, `gpu` nor `metal`.
#[derive(Debug, PartialEq, Eq)]
pub struct BackendParseError(pub String);

/// ASCII uppercase letters mapped to lowercase, everything else kept.
pub open spec fn ascii_lower_char(c: char) -> char {
    if 'A' <= c && c <= 'Z' {
        (((c as u32) + 32) as u8) as char
    } else {
        c
    }
}

/// What `str::to_ascii_lowercase` returns.
pub open spec fn ascii_lower(s: Seq<char>) -> Seq<char> {
    Seq::new(s.len(), |i: int| ascii_lower_char(s[i]))
}

fn ascii_lower_char_exec(c: char) -> (r: char)
    ensures
        r == ascii_lower_char(c),
{
    if 'A' <= c && c <= 'Z' {
        let code: u8 = (c as u8) + 32;
        code as char
    } else {
        c
    }
}

/// ASCII lowercase of a character sequence.
pub fn ascii_lowercase(s: &[char]) -> (r: Vec<char>)
    ensures
        r@ == ascii_lower(s@),
{
    let mut out: Vec<char> = Vec::new();
    let mut i: usize = 0;
    while i < s.len()
        invariant
            i <= s.len(),
            out@ == ascii_lower(s@.take(i as int)),
        decreases s.len() - i,
    {
        out.push(ascii_lower_char_exec(s[i]));
        assert(ascii_lower(s@.take(i as int)).push(ascii_lower_char(s@[i as int])) =~= ascii_lower(
            s@.take(i + 1),
        ));
        i = i + 1;
    }
    assert(s@.take(s.len() as int) =~= s@);
    out
}

/// What `InferenceBackend::parse` decides for a name.
pub open spec fn parse_backend_spec(s: Seq<char>) -> Result<InferenceBackend, Seq<char>> {
    let n = ascii_lower(trim_spec(s));
    if n == "cpu"@ {
        Ok(InferenceBackend::Cpu)
    } else if n == "gpu"@ || n == "metal"@ {
        Ok(InferenceBackend::Gpu)
    } else {
        Err(n)
    }
}

impl InferenceBackend {
    /// Parse `cpu`, `gpu` or `metal` (case-insensitive, surrounding
    /// whitespace ignored); anything else is an error carrying the name.
    pub fn parse(s: &str) -> (r: Result<Self, BackendParseError>)
        ensures
            match parse_backend_spec(s@) {
                Ok(b) => r == Ok::<InferenceBackend, BackendParseError>(b),
                Err(name) => r matches Err(e) && e.0@ == name,
            },
    {
        let t = trim(s);
        let tc = chars_of(t);
        let n = ascii_lowercase(tc.as_slice());
        if seq_eq_str(n.as_slice(), "cpu") {
            Ok(InferenceBackend::Cpu)
        } else if seq_eq_str(n.as_slice(), "gpu") || seq_eq_str(n.as_slice(), "metal") {
            Ok(InferenceBackend::Gpu)
        } else {
            Err(BackendParseError(string_of(n.as_slice())))
        }
    }

    pub open spec fn name(self) -> Seq<char> {
        match self {
            InferenceBackend::Cpu => "cpu"@,
            InferenceBackend::Gpu => "gpu"@,
        }
    }

    pub fn as_str(self) -> (r: &'static str)
        ensures
            r@ == self.name(),
    {
        match self {
            InferenceBackend::Cpu => "cpu",
            InferenceBackend::Gpu => "gpu",
        }
    }
}

impl BackendParseError {
    /// The error text shown to the user.
    pub fn message(&self) -> (r: String)
        ensures
            r@ == "unknown inference backend: "@ + self.0@ + " (expected cpu or gpu)"@,
    {
        let mut out: Vec<char> = Vec::new();
        push_str_chars(&mut out, "unknown inference backend: ");
        push_str_chars(&mut out, self.0.as_str());
        push_str_chars(&mut out, " (expected cpu or gpu)");
        string_of(out.as_slice())
    }
}


/// Every backend parses back from its own name.
pub proof fn law_backend_name_round_trip(b: InferenceBackend)
    ensures
        parse_backend_spec(b.name()) == Ok::<InferenceBackend, Seq<char>>(b),
{
    reveal_strlit("cpu");
    reveal_strlit("gpu");
    let n = b.name();
    assert(trim_start_spec(n) == n);
    assert(trim_end_spec(n) == n);
    assert(ascii_lower(n) =~= n);
}


proof fn lemma_lower_keeps_whitespace(c: char)
    ensures
        char_is_whitespace(ascii_lower_char(c)) == char_is_whitespace(c),
        ascii_lower_char(ascii_lower_char(c)) == ascii_lower_char(c),
{
    if 'A' <= c && c <= 'Z' {
        assert(((((c as u32) + 32) as u8) as char) as u32 == (c as u32) + 32);
    }
}

proof fn lemma_trim_ascii_lower(s: Seq<char>)
    ensures
        trim_start_spec(ascii_lower(s)) == ascii_lower(trim_start_spec(s)),
        trim_end_spec(ascii_lower(s)) == ascii_lower(trim_end_spec(s)),
    decreases s.len(),
{
    if s.len() > 0 {
        lemma_lower_keeps_whitespace(s[0]);
        lemma_lower_keeps_whitespace(s.last());
        lemma_trim_ascii_lower(s.drop_first());
        lemma_trim_ascii_lower(s.drop_last());
        assert(ascii_lower(s).drop_first() =~= ascii_lower(s.drop_first()));
        assert(ascii_lower(s).drop_last() =~= ascii_lower(s.drop_last()));
    }
}

/// Parsing ignores ASCII letter case: a name and its lowercase parse alike.
pub proof fn law_backend_parse_ignores_case(s: Seq<char>)
    ensures
        parse_backend_spec(ascii_lower(s)) == parse_backend_spec(s),
{
    lemma_trim_ascii_lower(s);
    let t = trim_start_spec(s);
    lemma_trim_ascii_lower(t);
    let u = trim_spec(s);
    assert forall|i: int| 0 <= i < u.len() implies ascii_lower_char(ascii_lower_char(u[i]))
        == ascii_lower_char(u[i]) by {
        lemma_lower_keeps_whitespace(u[i]);
    }
    assert(ascii_lower(ascii_lower(u)) =~= ascii_lower(u));
}

} // verus!
