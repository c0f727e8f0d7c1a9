//! In-memory session store (the JSON file side lives with the shell).
use vstd::prelude::*;

use crate::memory::chunk::TopicChunk;
use crate::memory::compile::{
    active_topic_spec, compile, notes_header, notes_parts, state_summary_spec, CompilerConfig,
    TopicSwitch,
};
use crate::text::seq_join;
use crate::memory::pending::PendingClarification;
use crate::memory::summary::{simple_summary, simple_summary_spec, window_start};
use crate::memory::turn::{is_timestamp, Turn};

verus! {

/// Turns kept in the recent window / summary unless configured otherwise.
pub const DEFAULT_RECENT_N: usize = 8;

/// Characters per side in the rolling summary.
pub const SUMMARY_CHARS_PER_SIDE: usize = 120;

#[derive(Debug)]
pub struct SessionMemory {
    pub turns: Vec<Turn>,
    /// Rolling text summary of recent turns (no LLM).
    pub summary: String,
    /// How many turns to keep in the recent window / summary.
    pub recent_n: usize,
    /// Topic chunks indexed by S1.
    pub chunks: Vec<TopicChunk>,
    /// Index into `chunks` for the active topic.
    pub current_chunk: Option<usize>,
    /// Previous current chunk (topic stack N-1) for unspecified "さっきの話".
    pub previous_chunk: Option<usize>,
    /// Waiting for the user to pick among ambiguous return targets.
    pub pending_clarify: Option<PendingClarification>,
}

impl Default for SessionMemory {
    fn default() -> (m: Self)
        ensures
            m.turns@.len() == 0,
            m.summary@.len() == 0,
            m.recent_n == DEFAULT_RECENT_N,
            m.chunks@.len() == 0,
            m.current_chunk.is_none(),
            m.previous_chunk.is_none(),
            m.pending_clarify.is_none(),
            m.wf(),
            m.summary_fresh(),
    {
        Self::new(DEFAULT_RECENT_N)
    }
}

/// The chunk `c` with its exclusive end moved to `end`.
pub open spec fn with_turn_end(c: TopicChunk, end: usize) -> TopicChunk {
    TopicChunk { turn_end: end, ..c }
}

/// Indices below `n` other than `cur`, ascending.
pub open spec fn past_indices(n: nat, cur: Option<usize>) -> Seq<usize>
    decreases n,
{
    if n == 0 {
        Seq::empty()
    } else if cur == Some((n - 1) as usize) {
        past_indices((n - 1) as nat, cur)
    } else {
        past_indices((n - 1) as nat, cur).push((n - 1) as usize)
    }
}

impl SessionMemory {
    /// The memory's structural invariant: a positive window and chunk turn
    /// ranges that lie within the stored turns.
    pub open spec fn wf(&self) -> bool {
        &&& self.recent_n >= 1
        &&& forall|i: int|
            0 <= i < self.chunks.len() ==> #[trigger] self.chunks@[i].turn_start
                <= self.chunks@[i].turn_end <= self.turns.len()
    }

    /// The rolling summary describes the stored turns.
    pub open spec fn summary_fresh(&self) -> bool {
        self.summary@ == simple_summary_spec(
            self.turns@,
            self.recent_n as nat,
            SUMMARY_CHARS_PER_SIDE as nat,
        )
    }

    /// `after` is `before` with `index` made current (the effect of
    /// `set_current_chunk`).
    pub open spec fn switched_to(before: SessionMemory, after: SessionMemory, index: usize) -> bool {
        if before.current_chunk == Some(index) {
            after == before
        } else {
            &&& after.current_chunk == Some(index)
            &&& after.previous_chunk == before.current_chunk
            &&& after.pending_clarify.is_none()
            &&& after.turns == before.turns
            &&& after.summary == before.summary
            &&& after.recent_n == before.recent_n
            &&& after.chunks == before.chunks
        }
    }

    /// An empty memory with a window of `max(recent_n, 1)` turns.
    pub fn new(recent_n: usize) -> (m: SessionMemory)
        ensures
            m.turns@.len() == 0,
            m.summary@.len() == 0,
            m.recent_n == if recent_n >= 1 {
                recent_n
            } else {
                1
            },
            m.chunks@.len() == 0,
            m.current_chunk.is_none(),
            m.previous_chunk.is_none(),
            m.pending_clarify.is_none(),
            m.wf(),
            m.summary_fresh(),
    {
        SessionMemory {
            turns: Vec::new(),
            summary: String::new(),
            recent_n: if recent_n >= 1 {
                recent_n
            } else {
                1
            },
            chunks: Vec::new(),
            current_chunk: None,
            previous_chunk: None,
            pending_clarify: None,
        }
    }

    /// Record one exchange, extend the active chunk and refresh the summary.
    pub fn append(&mut self, user: &str, assistant: &str)
        ensures
            final(self).turns@.len() == old(self).turns@.len() + 1,
            final(self).turns@.drop_last() == old(self).turns@,
            final(self).turns@.last().user@ == user@,
            final(self).turns@.last().assistant@ == assistant@,
            is_timestamp(final(self).turns@.last().at@),
            final(self).chunks@ == match old(self).current_chunk {
                Some(i) => if i < old(self).chunks@.len() {
                    old(self).chunks@.update(
                        i as int,
                        with_turn_end(old(self).chunks@[i as int], final(self).turns@.len() as usize),
                    )
                } else {
                    old(self).chunks@
                },
                None => old(self).chunks@,
            },
            final(self).summary_fresh(),
            final(self).recent_n == old(self).recent_n,
            final(self).current_chunk == old(self).current_chunk,
            final(self).previous_chunk == old(self).previous_chunk,
            final(self).pending_clarify == old(self).pending_clarify,
            old(self).wf() ==> final(self).wf(),
    {
        let t = Turn::new(user, assistant);
        self.turns.push(t);
        let n = self.turns.len();
        match self.current_chunk {
            Some(i) => {
                if i < self.chunks.len() {
                    let mut c = self.chunks.remove(i);
                    c.turn_end = n;
                    self.chunks.insert(i, c);
                }
            },
            None => {},
        }
        self.refresh_summary();
        proof {
            if old(self).wf() {
                assert forall|k: int| 0 <= k < self.chunks.len() implies #[trigger] self.chunks@[
                    k
                ].turn_start <= self.chunks@[k].turn_end <= self.turns.len() by {
                    assert(old(self).chunks@[k].turn_start <= old(self).chunks@[k].turn_end);
                }
            }
        }
    }

    /// The last `recent_n` turns (all of them when there are fewer).
    pub fn recent(&self) -> (r: &[Turn])
        ensures
            r@ == self.turns@.subrange(
                window_start(self.turns@.len(), self.recent_n as nat) as int,
                self.turns@.len() as int,
            ),
    {
        let len = self.turns.len();
        let start = if len >= self.recent_n {
            len - self.recent_n
        } else {
            0
        };
        &self.turns.as_slice()[start..len]
    }

    /// The user side of the latest turn.
    pub fn last_user(&self) -> (r: Option<&str>)
        ensures
            r.is_none() <==> self.turns@.len() == 0,
            r matches Some(u) ==> u@ == self.turns@.last().user@,
    {
        let len = self.turns.len();
        if len == 0 {
            None
        } else {
            Some(self.turns[len - 1].user.as_str())
        }
    }

    /// Recompute the rolling summary from the stored turns.
    pub fn refresh_summary(&mut self)
        ensures
            final(self).summary_fresh(),
            final(self).turns == old(self).turns,
            final(self).recent_n == old(self).recent_n,
            final(self).chunks == old(self).chunks,
            final(self).current_chunk == old(self).current_chunk,
            final(self).previous_chunk == old(self).previous_chunk,
            final(self).pending_clarify == old(self).pending_clarify,
    {
        self.summary = simple_summary(self.turns.as_slice(), self.recent_n, SUMMARY_CHARS_PER_SIDE);
    }

    /// `after` is `before` with a new chunk (summary, embedding) opened at
    /// the current turn count and made current (the effect of `open_chunk`).
    pub open spec fn chunk_opened(
        before: SessionMemory,
        after: SessionMemory,
        summary: Seq<char>,
        embedding: Seq<u32>,
    ) -> bool {
        let idx = before.chunks@.len();
        &&& after.chunks@.len() == before.chunks@.len() + 1
        &&& after.chunks@.drop_last() == before.chunks@
        &&& after.chunks@.last().id == if before.chunks@.len() == 0 {
            0
        } else {
            before.chunks@.last().id + 1
        }
        &&& after.chunks@.last().summary@ == summary
        &&& after.chunks@.last().embedding@ == embedding
        &&& after.chunks@.last().turn_start == before.turns@.len()
        &&& after.chunks@.last().turn_end == before.turns@.len()
        &&& after.turns == before.turns
        &&& after.summary == before.summary
        &&& after.recent_n == before.recent_n
        &&& after.current_chunk == Some(idx as usize)
        &&& after.previous_chunk == if before.current_chunk == Some(idx as usize) {
            before.previous_chunk
        } else {
            before.current_chunk
        }
        &&& before.current_chunk != Some(idx as usize) ==> after.pending_clarify.is_none()
        &&& before.current_chunk == Some(idx as usize) ==> after.pending_clarify
            == before.pending_clarify
    }

    /// Opening a chunk is possible unless the last id is exhausted.
    pub open spec fn can_open_chunk(&self) -> bool {
        self.chunks@.len() == 0 || self.chunks@.last().id < u64::MAX
    }

    /// Open a new topic chunk at the current turn count and make it current.
    pub fn open_chunk(&mut self, summary: &str, embedding: Vec<u32>) -> (idx: usize)
        requires
            old(self).can_open_chunk(),
        ensures
            idx == old(self).chunks@.len(),
            SessionMemory::chunk_opened(*old(self), *final(self), summary@, embedding@),
            old(self).wf() ==> final(self).wf(),
    {
        let n = self.chunks.len();
        let id = if n == 0 {
            0
        } else {
            self.chunks[n - 1].id + 1
        };
        let chunk = TopicChunk::new(id, summary, embedding, self.turns.len());
        self.chunks.push(chunk);
        assert(self.chunks@.drop_last() =~= old(self).chunks@);
        proof {
            if old(self).wf() {
                assert forall|k: int| 0 <= k < self.chunks.len() implies #[trigger] self.chunks@[
                    k
                ].turn_start <= self.chunks@[k].turn_end <= self.turns.len() by {
                    if k < n {
                        assert(self.chunks@[k] == old(self).chunks@[k]);
                        assert(old(self).chunks@[k].turn_start <= old(self).chunks@[k].turn_end);
                    }
                }
            }
        }
        let ghost mid = *self;
        self.set_current_chunk(n);
        proof {
            if old(self).wf() {
                assert(mid.wf());
                assert(self.chunks == mid.chunks);
                assert(self.turns == mid.turns);
                assert(self.recent_n == mid.recent_n);
            }
        }
        n
    }

    /// Switch the active topic to an existing chunk (topic return).
    pub fn return_to_chunk(&mut self, index: usize) -> (ok: bool)
        ensures
            ok == (index < old(self).chunks@.len()),
            ok ==> SessionMemory::switched_to(*old(self), *final(self), index),
            !ok ==> *final(self) == *old(self),
            old(self).wf() ==> final(self).wf(),
    {
        if index < self.chunks.len() {
            self.set_current_chunk(index);
            true
        } else {
            false
        }
    }

    /// Update `current_chunk`, remembering the prior one as `previous_chunk`.
    pub fn set_current_chunk(&mut self, index: usize)
        ensures
            SessionMemory::switched_to(*old(self), *final(self), index),
            old(self).wf() ==> final(self).wf(),
    {
        match self.current_chunk {
            Some(c) => {
                if c == index {
                    return;
                }
            },
            None => {},
        }
        self.previous_chunk = self.current_chunk;
        self.current_chunk = Some(index);
        self.pending_clarify = None;
        proof {
            if old(self).wf() {
                assert forall|k: int| 0 <= k < self.chunks.len() implies #[trigger] self.chunks@[
                    k
                ].turn_start <= self.chunks@[k].turn_end <= self.turns.len() by {
                    assert(old(self).chunks@[k].turn_start <= old(self).chunks@[k].turn_end);
                }
            }
        }
    }

    /// Start waiting for the user to pick among return targets.
    pub fn set_pending_clarify(&mut self, pending: PendingClarification)
        ensures
            final(self).pending_clarify == Some(pending),
            old(self).wf() ==> final(self).wf(),
            final(self).turns == old(self).turns,
            final(self).summary == old(self).summary,
            final(self).recent_n == old(self).recent_n,
            final(self).chunks == old(self).chunks,
            final(self).current_chunk == old(self).current_chunk,
            final(self).previous_chunk == old(self).previous_chunk,
    {
        self.pending_clarify = Some(pending);
    }

    /// Stop waiting for a clarification answer.
    pub fn clear_pending_clarify(&mut self)
        ensures
            final(self).pending_clarify.is_none(),
            old(self).wf() ==> final(self).wf(),
            final(self).turns == old(self).turns,
            final(self).summary == old(self).summary,
            final(self).recent_n == old(self).recent_n,
            final(self).chunks == old(self).chunks,
            final(self).current_chunk == old(self).current_chunk,
            final(self).previous_chunk == old(self).previous_chunk,
    {
        self.pending_clarify = None;
    }

    /// Chunk summaries in chunk order.
    pub fn chunk_labels(&self) -> (r: Vec<String>)
        ensures
            r@.len() == self.chunks@.len(),
            forall|i: int| 0 <= i < r@.len() ==> #[trigger] r@[i] == self.chunks@[i].summary,
    {
        let mut out: Vec<String> = Vec::new();
        let mut i: usize = 0;
        while i < self.chunks.len()
            invariant
                i <= self.chunks.len(),
                out@.len() == i,
                forall|k: int| 0 <= k < i ==> #[trigger] out@[k] == self.chunks@[k].summary,
            decreases self.chunks.len() - i,
        {
            out.push(self.chunks[i].summary.clone());
            i = i + 1;
        }
        out
    }

    /// Embedding of the active chunk, when it exists.
    pub fn current_embedding(&self) -> (r: Option<&[u32]>)
        ensures
            r.is_some() <==> (self.current_chunk matches Some(i) && i < self.chunks@.len()),
            r matches Some(e) ==> e@ == self.chunks@[self.current_chunk->0 as int].embedding@,
    {
        match self.current_chunk {
            Some(i) => {
                if i < self.chunks.len() {
                    Some(self.chunks[i].embedding.as_slice())
                } else {
                    None
                }
            },
            None => None,
        }
    }

    /// Past chunks excluding the current one (for S1 return scoring).
    pub fn past_chunk_embeddings(&self) -> (r: Vec<(usize, &[u32])>)
        ensures
            r@.len() == past_indices(self.chunks@.len(), self.current_chunk).len(),
            forall|k: int|
                0 <= k < r@.len() ==> {
                    &&& (#[trigger] r@[k]).0 == past_indices(
                        self.chunks@.len(),
                        self.current_chunk,
                    )[k]
                    &&& r@[k].1@ == self.chunks@[r@[k].0 as int].embedding@
                },
    {
        let mut out: Vec<(usize, &[u32])> = Vec::new();
        let mut i: usize = 0;
        while i < self.chunks.len()
            invariant
                i <= self.chunks.len(),
                out@.len() == past_indices(i as nat, self.current_chunk).len(),
                forall|k: int|
                    0 <= k < out@.len() ==> {
                        &&& (#[trigger] out@[k]).0 == past_indices(i as nat, self.current_chunk)[k]
                        &&& out@[k].0 < self.chunks@.len()
                        &&& out@[k].1@ == self.chunks@[out@[k].0 as int].embedding@
                    },
            decreases self.chunks.len() - i,
        {
            let is_current = match self.current_chunk {
                Some(c) => c == i,
                None => false,
            };
            if !is_current {
                out.push((i, self.chunks[i].embedding.as_slice()));
            }
            proof {
                lemma_past_indices_bounded(i as nat, self.current_chunk);
            }
            i = i + 1;
        }
        out
    }

    /// Text suitable for a system message: the resident notes (active topic
    /// and rolling summary) without a turn dump.
    pub fn system_preamble(&self) -> (r: Option<String>)
        ensures
            r.is_none() <==> preamble_parts(*self).len() == 0,
            r matches Some(s) ==> s@ == notes_header() + seq_join(preamble_parts(*self), "\n\n"@),
    {
        let cfg = CompilerConfig { recent_turn_window: 0, max_chars_per_side: 120, max_dynamic_turns: 6 };
        let ctx = compile(self, TopicSwitch::Continue, &cfg);
        proof {
            assert(ctx.resident.recent_turns@.len() == 0);
            assert(notes_parts(ctx, 120) =~= preamble_parts(*self));
        }
        ctx.render_notes(&cfg)
    }

    /// Forget everything except the window size.
    pub fn clear(&mut self)
        ensures
            final(self).turns@.len() == 0,
            final(self).summary@.len() == 0,
            final(self).chunks@.len() == 0,
            final(self).current_chunk.is_none(),
            final(self).previous_chunk.is_none(),
            final(self).pending_clarify.is_none(),
            final(self).recent_n == old(self).recent_n,
            old(self).wf() ==> final(self).wf(),
            final(self).summary_fresh(),
    {
        self.turns.clear();
        self.summary = String::new();
        self.chunks.clear();
        self.current_chunk = None;
        self.previous_chunk = None;
        self.pending_clarify = None;
    }

    /// Repairs a memory read back from disk: a zero window becomes the
    /// default, and a missing summary is rebuilt from the turns.
    pub fn repair_after_load(&mut self)
        ensures
            final(self).recent_n == if old(self).recent_n == 0 {
                DEFAULT_RECENT_N
            } else {
                old(self).recent_n
            },
            (old(self).summary@.len() == 0 && old(self).turns@.len() != 0)
                ==> final(self).summary_fresh(),
            !(old(self).summary@.len() == 0 && old(self).turns@.len() != 0) ==> final(self).summary
                == old(self).summary,
            final(self).turns == old(self).turns,
            final(self).chunks == old(self).chunks,
            final(self).current_chunk == old(self).current_chunk,
            final(self).previous_chunk == old(self).previous_chunk,
            final(self).pending_clarify == old(self).pending_clarify,
    {
        if self.recent_n == 0 {
            self.recent_n = DEFAULT_RECENT_N;
        }
        if self.summary.as_str().is_empty() && self.turns.len() != 0 {
            self.refresh_summary();
        }
    }
}

/// Resident notes of the cold-start preamble: active topic, then summary.
pub open spec fn preamble_parts(m: SessionMemory) -> Seq<Seq<char>> {
    let cfg = CompilerConfig { recent_turn_window: 0, max_chars_per_side: 120, max_dynamic_turns: 6 };
    let p1: Seq<Seq<char>> = match active_topic_spec(m) {
        Some(t) => seq!["Active topic: "@ + t],
        None => Seq::empty(),
    };
    let summary = state_summary_spec(m, cfg);
    let p2: Seq<Seq<char>> = if summary.len() > 0 {
        seq!["Session summary (recent):\n"@ + summary]
    } else {
        Seq::empty()
    };
    p1 + p2
}

/// Every listed past index is below `n`.
pub proof fn lemma_past_indices_bounded(n: nat, cur: Option<usize>)
    ensures
        forall|k: int|
            0 <= k < past_indices(n, cur).len() ==> (#[trigger] past_indices(n, cur)[k]) < n,
    decreases n,
{
    if n > 0 {
        lemma_past_indices_bounded((n - 1) as nat, cur);
        let prev = past_indices((n - 1) as nat, cur);
        assert forall|k: int| 0 <= k < past_indices(n, cur).len() implies (#[trigger] past_indices(
            n,
            cur,
        )[k]) < n by {
            if cur != Some((n - 1) as usize) && k == prev.len() {
            } else {
                assert(past_indices(n, cur)[k] == prev[k]);
            }
        }
    }
}


/// The past topics are exactly the chunks other than the current one, each
/// once, in ascending order.
pub proof fn law_past_indices_exact(n: usize, cur: Option<usize>)
    ensures
        forall|i: usize| past_indices(n as nat, cur).contains(i) <==> (i < n && cur != Some(i)),
        forall|j: int, k: int|
            0 <= j < k < past_indices(n as nat, cur).len() ==> past_indices(n as nat, cur)[j] < past_indices(n as nat, cur)[k],
    decreases n,
{
    if n > 0 {
        law_past_indices_exact((n - 1) as usize, cur);
        lemma_past_indices_bounded((n - 1) as nat, cur);
        let prev = past_indices((n - 1) as nat, cur);
        let last = (n - 1) as usize;
        if cur != Some(last) {
            assert forall|i: usize| past_indices(n as nat, cur).contains(i) <==> (i < n && cur != Some(i)) by {
                if i == last {
                    assert(past_indices(n as nat, cur)[prev.len() as int] == i);
                } else if prev.contains(i) {
                    let j = choose|j: int| 0 <= j < prev.len() && prev[j] == i;
                    assert(past_indices(n as nat, cur)[j] == i);
                }
                if past_indices(n as nat, cur).contains(i) {
                    let j = choose|j: int| 0 <= j < past_indices(n as nat, cur).len() && past_indices(n as nat, cur)[j] == i;
                    if j < prev.len() {
                        assert(prev[j] == i);
                        assert(prev.contains(i));
                    }
                }
            }
            assert forall|j: int, k: int|
                0 <= j < k < past_indices(n as nat, cur).len() implies past_indices(n as nat, cur)[j]
                < past_indices(n as nat, cur)[k] by {
                assert(past_indices(n as nat, cur)[j] == prev[j]);
                if k < prev.len() {
                    assert(past_indices(n as nat, cur)[k] == prev[k]);
                } else {
                    assert(prev[j] < n - 1);
                }
            }
        }
    }
}

} // verus!
