//! Errors of the sentence embedders (bekko-a8m and granite).
use vstd::prelude::*;

use crate::engine::backend::{ascii_lower, ascii_lowercase};
use crate::text::{chars_eq, chars_of, concat2, concat3, contains_str, has_substring, seq_eq_str};

verus! {

/// Why an embedding could not be computed.
#[derive(Debug, PartialEq, Eq)]
pub enum EmbedError {
    Tokenizer(String),
    Onnx(String),
    MissingInput(String),
    BadShape,
    Io(String),
}

impl EmbedError {
    /// The error text shown to the user.
    pub open spec fn message_spec(&self) -> Seq<char> {
        match self {
            EmbedError::Tokenizer(s) => "tokenizer: "@ + s@,
            EmbedError::Onnx(s) => "onnx: "@ + s@,
            EmbedError::MissingInput(s) => "missing model input `"@ + s@ + "`"@,
            EmbedError::BadShape => "unexpected output shape"@,
            EmbedError::Io(s) => "io: "@ + s@,
        }
    }

    pub fn message(&self) -> (r: String)
        ensures
            r@ == self.message_spec(),
    {
        match self {
            EmbedError::Tokenizer(s) => concat2("tokenizer: ", s.as_str()),
            EmbedError::Onnx(s) => concat2("onnx: ", s.as_str()),
            EmbedError::MissingInput(s) => concat3("missing model input `", s.as_str(), "`"),
            EmbedError::BadShape => "unexpected output shape".to_string(),
            EmbedError::Io(s) => concat2("io: ", s.as_str()),
        }
    }
}

/// Width of the sentence embeddings (bekko-a8m and granite-97m).
pub const EMBED_DIM: usize = 384;

/// Longest token sequence fed to the encoder.
pub const MAX_SEQ: usize = 512;

/// The two names are equal ignoring ASCII case.
pub open spec fn eq_ignore_ascii_case(a: Seq<char>, b: Seq<char>) -> bool {
    ascii_lower(a) == ascii_lower(b)
}

pub open spec fn names_view(v: Seq<String>) -> Seq<Seq<char>> {
    Seq::new(v.len(), |i: int| v[i]@)
}

/// Some candidate matches the name, ignoring ASCII case.
pub open spec fn matches_candidate(name: Seq<char>, candidates: Seq<Seq<char>>) -> bool {
    exists|j: int| 0 <= j < candidates.len() && eq_ignore_ascii_case(name, #[trigger] candidates[j])
}

/// The first model input whose name matches a candidate.
pub open spec fn first_match_from(names: Seq<Seq<char>>, candidates: Seq<Seq<char>>, i: int) -> Option<int>
    decreases names.len() - i,
{
    if i < 0 || i >= names.len() {
        None
    } else if matches_candidate(names[i], candidates) {
        Some(i)
    } else {
        first_match_from(names, candidates, i + 1)
    }
}

/// Which model input feeds a tensor: the first whose name matches a
/// candidate; failing that the first input for `input_ids`, else the second
/// (or the first when there is only one).
pub open spec fn pick_input_spec(names: Seq<Seq<char>>, candidates: Seq<Seq<char>>) -> Result<
    Seq<char>,
    Seq<char>,
> {
    match first_match_from(names, candidates, 0) {
        Some(i) => Ok(names[i]),
        None => if candidates[0] == "input_ids"@ {
            if names.len() > 0 {
                Ok(names[0])
            } else {
                Err("input_ids"@)
            }
        } else if names.len() > 1 {
            Ok(names[1])
        } else if names.len() > 0 {
            Ok(names[0])
        } else {
            Err(candidates[0])
        },
    }
}

fn matches_candidate_exec(name: &str, candidates: &[&str]) -> (r: bool)
    ensures
        r == matches_candidate(name@, Seq::new(candidates@.len(), |j: int| candidates@[j]@)),
{
    let ghost cv = Seq::new(candidates@.len(), |j: int| candidates@[j]@);
    let nc = chars_of(name);
    let nl = ascii_lowercase(nc.as_slice());
    let mut j: usize = 0;
    while j < candidates.len()
        invariant
            j <= candidates.len(),
            cv == Seq::new(candidates@.len(), |k: int| candidates@[k]@),
            nl@ == ascii_lower(name@),
            forall|k: int| 0 <= k < j ==> !eq_ignore_ascii_case(name@, #[trigger] cv[k]),
        decreases candidates.len() - j,
    {
        let cc = chars_of(candidates[j]);
        let cl = ascii_lowercase(cc.as_slice());
        if chars_eq(nl.as_slice(), cl.as_slice()) {
            assert(eq_ignore_ascii_case(name@, cv[j as int]));
            return true;
        }
        j = j + 1;
    }
    false
}

/// Picks the model input for a tensor among the session's input names.
pub fn pick_input_name(names: &[String], candidates: &[&str]) -> (r: Result<String, EmbedError>)
    requires
        candidates@.len() > 0,
    ensures
        match pick_input_spec(names_view(names@), Seq::new(candidates@.len(), |j: int| candidates@[j]@)) {
            Ok(n) => r matches Ok(s) && s@ == n,
            Err(m) => r matches Err(EmbedError::MissingInput(s)) && s@ == m,
        },
{
    let ghost nv = names_view(names@);
    let ghost cv = Seq::new(candidates@.len(), |j: int| candidates@[j]@);
    let mut i: usize = 0;
    while i < names.len()
        invariant
            i <= names.len(),
            nv == names_view(names@),
            cv == Seq::new(candidates@.len(), |j: int| candidates@[j]@),
            first_match_from(nv, cv, 0) == first_match_from(nv, cv, i as int),
        decreases names.len() - i,
    {
        if matches_candidate_exec(names[i].as_str(), candidates) {
            return Ok(names[i].clone());
        }
        i = i + 1;
    }
    proof {
        reveal_strlit("input_ids");
    }
    if seq_eq_str(chars_of(candidates[0]).as_slice(), "input_ids") {
        if names.len() > 0 {
            Ok(names[0].clone())
        } else {
            Err(EmbedError::MissingInput("input_ids".to_string()))
        }
    } else if names.len() > 1 {
        Ok(names[1].clone())
    } else if names.len() > 0 {
        Ok(names[0].clone())
    } else {
        Err(EmbedError::MissingInput(candidates[0].to_string()))
    }
}

/// An output that holds token embeddings, by its lowercase name.
pub open spec fn is_embedding_output(lower: Seq<char>) -> bool {
    has_substring(lower, "last_hidden"@) || lower == "output"@ || has_substring(
        lower,
        "token_embeddings"@,
    )
}

pub open spec fn first_output_from(names: Seq<Seq<char>>, i: int) -> Option<int>
    decreases names.len() - i,
{
    if i < 0 || i >= names.len() {
        None
    } else if is_embedding_output(ascii_lower(names[i])) {
        Some(i)
    } else {
        first_output_from(names, i + 1)
    }
}

/// Which output to read: the first named like token embeddings, else the
/// first output.
pub open spec fn pick_output_spec(names: Seq<Seq<char>>) -> Option<int> {
    match first_output_from(names, 0) {
        Some(i) => Some(i),
        None => if names.len() > 0 {
            Some(0)
        } else {
            None
        },
    }
}

pub fn pick_output_index(names: &[String]) -> (r: Option<usize>)
    ensures
        match r {
            Some(i) => pick_output_spec(names_view(names@)) == Some(i as int),
            None => pick_output_spec(names_view(names@)).is_none(),
        },
{
    let ghost nv = names_view(names@);
    let mut i: usize = 0;
    while i < names.len()
        invariant
            i <= names.len(),
            nv == names_view(names@),
            first_output_from(nv, 0) == first_output_from(nv, i as int),
        decreases names.len() - i,
    {
        let nc = chars_of(names[i].as_str());
        let lower = ascii_lowercase(nc.as_slice());
        if contains_str(lower.as_slice(), "last_hidden") || seq_eq_str(lower.as_slice(), "output")
            || contains_str(lower.as_slice(), "token_embeddings") {
            return Some(i);
        }
        i = i + 1;
    }
    if names.len() > 0 {
        Some(0)
    } else {
        None
    }
}

/// How an output tensor becomes one embedding.
#[derive(Debug, Clone, Copy, PartialEq, Eq, Structural)]
pub enum Pooling {
    /// Average the `seq` token vectors of width `hidden` (masked).
    Mean { seq: usize, hidden: usize },
    /// Take the first `EMBED_DIM` values (the CLS vector, or the vector).
    Head,
}

/// Mean pooling (bekko-a8m) by output shape: `[b, s, EMBED_DIM]` with
/// `b >= 1` is averaged, `[1, EMBED_DIM]` and `[EMBED_DIM]` are taken as is.
pub open spec fn mean_pooling_spec(dims: Seq<usize>) -> Option<Pooling> {
    if dims.len() == 3 && dims[0] >= 1 && dims[2] == EMBED_DIM {
        Some(Pooling::Mean { seq: dims[1], hidden: dims[2] })
    } else if (dims.len() == 2 && dims[0] == 1 && dims[1] == EMBED_DIM) || (dims.len() == 1
        && dims[0] == EMBED_DIM) {
        Some(Pooling::Head)
    } else {
        None
    }
}

pub fn mean_pooling(dims: &[usize]) -> (r: Result<Pooling, EmbedError>)
    ensures
        match mean_pooling_spec(dims@) {
            Some(p) => r == Ok::<Pooling, EmbedError>(p),
            None => r == Err::<Pooling, EmbedError>(EmbedError::BadShape),
        },
{
    if dims.len() == 3 && dims[0] >= 1 && dims[2] == EMBED_DIM {
        Ok(Pooling::Mean { seq: dims[1], hidden: dims[2] })
    } else if (dims.len() == 2 && dims[0] == 1 && dims[1] == EMBED_DIM) || (dims.len() == 1
        && dims[0] == EMBED_DIM) {
        Ok(Pooling::Head)
    } else {
        Err(EmbedError::BadShape)
    }
}

/// CLS pooling (granite-97m): any of `[b, s, EMBED_DIM]` (`b >= 1`),
/// `[1, EMBED_DIM]` or `[EMBED_DIM]` gives the first `EMBED_DIM` values.
pub open spec fn cls_pooling_spec(dims: Seq<usize>) -> Option<Pooling> {
    if (dims.len() == 3 && dims[0] >= 1 && dims[2] == EMBED_DIM) || (dims.len() == 2 && dims[0]
        == 1 && dims[1] == EMBED_DIM) || (dims.len() == 1 && dims[0] == EMBED_DIM) {
        Some(Pooling::Head)
    } else {
        None
    }
}

pub fn cls_pooling(dims: &[usize]) -> (r: Result<Pooling, EmbedError>)
    ensures
        match cls_pooling_spec(dims@) {
            Some(p) => r == Ok::<Pooling, EmbedError>(p),
            None => r == Err::<Pooling, EmbedError>(EmbedError::BadShape),
        },
{
    if (dims.len() == 3 && dims[0] >= 1 && dims[2] == EMBED_DIM) || (dims.len() == 2 && dims[0]
        == 1 && dims[1] == EMBED_DIM) || (dims.len() == 1 && dims[0] == EMBED_DIM) {
        Ok(Pooling::Head)
    } else {
        Err(EmbedError::BadShape)
    }
}

} // verus!
