//! Known on-device model identities.
use vstd::prelude::*;

use crate::text::seq_eq_str;

verus! {

/// Stable id used by the CLI (`loco download gemma4-e4b`).
#[derive(Debug, Clone, Copy, PartialEq, Eq, Hash, Structural)]
pub enum ModelId {
    Gemma4E4b,
}

impl ModelId {
    pub open spec fn name(self) -> Seq<char> {
        match self {
            ModelId::Gemma4E4b => "gemma4-e4b"@,
        }
    }

    pub fn as_str(self) -> (r: &'static str)
        ensures
            r@ == self.name(),
    {
        match self {
            ModelId::Gemma4E4b => "gemma4-e4b",
        }
    }

    /// The accepted spellings of each model id (exact, case-sensitive).
    pub open spec fn parse_spec(s: Seq<char>) -> Option<ModelId> {
        if s == "gemma4-e4b"@ || s == "gemma-4-e4b"@ || s == "e4b"@ {
            Some(ModelId::Gemma4E4b)
        } else {
            None
        }
    }

    pub fn parse(s: &str) -> (r: Option<Self>)
        ensures
            r == ModelId::parse_spec(s@),
    {
        let cs = crate::text::chars_of(s);
        if seq_eq_str(cs.as_slice(), "gemma4-e4b") || seq_eq_str(cs.as_slice(), "gemma-4-e4b")
            || seq_eq_str(cs.as_slice(), "e4b") {
            Some(ModelId::Gemma4E4b)
        } else {
            None
        }
    }
}

/// Hugging Face artifact coordinates for a `.litertlm` file.
#[derive(Debug, Clone, Copy, PartialEq, Eq)]
pub struct ModelSpec {
    pub id: ModelId,
    pub hf_repo: &'static str,
    pub filename: &'static str,
    pub display_name: &'static str,
}

impl ModelSpec {
    /// The catalog entry of a model.
    pub open spec fn for_id_spec(id: ModelId) -> ModelSpec {
        match id {
            ModelId::Gemma4E4b => ModelSpec {
                id: ModelId::Gemma4E4b,
                hf_repo: "litert-community/gemma-4-E4B-it-litert-lm",
                filename: "gemma-4-E4B-it.litertlm",
                display_name: "Gemma 4 E4B (LiteRT-LM)",
            },
        }
    }

    /// The catalog entry of a model.
    pub fn for_id(id: ModelId) -> (s: ModelSpec)
        ensures
            s == ModelSpec::for_id_spec(id),
            s.id == id,
            id == ModelId::Gemma4E4b ==> s.hf_repo@ == "litert-community/gemma-4-E4B-it-litert-lm"@
                && s.filename@ == "gemma-4-E4B-it.litertlm"@ && s.display_name@
                == "Gemma 4 E4B (LiteRT-LM)"@,
    {
        match id {
            ModelId::Gemma4E4b => ModelSpec::gemma4_e4b_it(),
        }
    }

    /// Official LiteRT-LM pack of Gemma 4 E4B instruct.
    pub fn gemma4_e4b_it() -> (s: ModelSpec)
        ensures
            s == ModelSpec::for_id_spec(ModelId::Gemma4E4b),
            s.id == ModelId::Gemma4E4b,
            s.hf_repo@ == "litert-community/gemma-4-E4B-it-litert-lm"@,
            s.filename@ == "gemma-4-E4B-it.litertlm"@,
            s.display_name@ == "Gemma 4 E4B (LiteRT-LM)"@,
    {
        ModelSpec {
            id: ModelId::Gemma4E4b,
            hf_repo: "litert-community/gemma-4-E4B-it-litert-lm",
            filename: "gemma-4-E4B-it.litertlm",
            display_name: "Gemma 4 E4B (LiteRT-LM)",
        }
    }
}


/// Every model id parses back from its own name.
pub proof fn law_model_id_round_trip(id: ModelId)
    ensures
        ModelId::parse_spec(id.name()) == Some(id),
{
}

} // verus!
