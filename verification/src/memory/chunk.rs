//! Topic chunks for S1 (embedding + turn range).
use vstd::prelude::*;

verus! {

/// One semantic topic span within a session.
#[derive(Debug, PartialEq)]
pub struct TopicChunk {
    pub id: u64,
    /// Short text used for display / compiler (usually first user line).
    pub summary: String,
    /// L2-normalized embedding, each component kept as its IEEE-754 bit
    /// pattern (`f32::to_bits`).
    pub embedding: Vec<u32>,
    /// Inclusive start index into the session turns.
    pub turn_start: usize,
    /// Exclusive end index into turns (grows as turns append).
    pub turn_end: usize,
}

impl TopicChunk {
    /// A chunk that opens at `turn_start` and holds no turns yet.
    pub fn new(id: u64, summary: &str, embedding: Vec<u32>, turn_start: usize) -> (c: TopicChunk)
        ensures
            c.id == id,
            c.summary@ == summary@,
            c.embedding@ == embedding@,
            c.turn_start == turn_start,
            c.turn_end == turn_start,
    {
        TopicChunk { id, summary: summary.to_owned(), embedding, turn_start, turn_end: turn_start }
    }
}

impl Clone for TopicChunk {
    fn clone(&self) -> (r: Self)
        ensures
            r.id == self.id,
            r.summary == self.summary,
            r.embedding@ == self.embedding@,
            r.turn_start == self.turn_start,
            r.turn_end == self.turn_end,
    {
        let embedding = self.embedding.clone();
        assert(embedding@ =~= self.embedding@);
        TopicChunk {
            id: self.id,
            summary: self.summary.clone(),
            embedding,
            turn_start: self.turn_start,
            turn_end: self.turn_end,
        }
    }
}

} // verus!
