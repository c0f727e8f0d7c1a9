//! Topic decisions after S1 / S2.
use vstd::prelude::*;

verus! {

/// Final topic decision after S1 (and optional S2).
#[derive(Debug, Clone, Copy, PartialEq, Eq, Structural)]
pub enum TopicDecision {
    Continue,
    New,
    Return { chunk_index: usize },
}

/// S2 outcome (may request clarification).
#[derive(Debug, Clone, Copy, PartialEq, Eq, Structural)]
pub enum S2Decision {
    Continue,
    New,
    Return { chunk_index: usize },
    /// Ask which past topic (resolve builds the question).
    ClarifyPast,
}

/// Map an S2 decision into a final [`TopicDecision`] (Clarify stays separate).
pub fn topic_from_s2(decision: &S2Decision) -> (r: Option<TopicDecision>)
    ensures
        r == match *decision {
            S2Decision::Continue => Some(TopicDecision::Continue),
            S2Decision::New => Some(TopicDecision::New),
            S2Decision::Return { chunk_index } => Some(TopicDecision::Return { chunk_index }),
            S2Decision::ClarifyPast => None::<TopicDecision>,
        },
{
    match decision {
        S2Decision::Continue => Some(TopicDecision::Continue),
        S2Decision::New => Some(TopicDecision::New),
        S2Decision::Return { chunk_index } => Some(TopicDecision::Return { chunk_index: *chunk_index }),
        S2Decision::ClarifyPast => None,
    }
}

} // verus!
