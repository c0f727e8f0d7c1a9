//! Pending topic clarification (persisted with session memory).
use vstd::prelude::*;

verus! {

#[derive(Debug, PartialEq, Eq)]
pub struct PendingClarification {
    pub question: String,
    pub candidates: Vec<PendingCandidate>,
}

#[derive(Debug, PartialEq, Eq)]
pub struct PendingCandidate {
    pub label: String,
    /// `None` means stay on the current topic.
    pub return_chunk: Option<usize>,
}

impl Clone for PendingCandidate {
    fn clone(&self) -> (r: Self)
        ensures
            r == *self,
    {
        PendingCandidate { label: self.label.clone(), return_chunk: self.return_chunk }
    }
}

impl Clone for PendingClarification {
    fn clone(&self) -> (r: Self)
        ensures
            r.question == self.question,
            r.candidates@ == self.candidates@,
    {
        let candidates = self.candidates.clone();
        assert(candidates@ =~= self.candidates@);
        PendingClarification { question: self.question.clone(), candidates }
    }
}

} // verus!
