//! Expanding one document's chunks, one model call at a time, with a pause
//! between calls. The caller performs each action and reports what happened.
use vstd::prelude::*;

use crate::chunker::Chunk;
use crate::neighborhood::{expansion_prompt, expansion_request, expansion_text, one_document, request_parts};

verus! {

/// A chunk rewritten to stand on its own, with the document it came from.
pub struct EnrichedChunk {
    pub text: String,
    pub path: String,
}

impl View for EnrichedChunk {
    type V = (Seq<char>, Seq<char>);

    open spec fn view(&self) -> (Seq<char>, Seq<char>) {
        (self.text@, self.path@)
    }
}

pub open spec fn enriched_views(v: Seq<EnrichedChunk>) -> Seq<(Seq<char>, Seq<char>)> {
    v.map_values(|e: EnrichedChunk| e@)
}

/// How long to wait after each model call, and whether to wait after the last.
#[derive(Clone, Copy, Debug, PartialEq, Eq, Structural)]
pub struct Pacing {
    pub delay_ms: u64,
    pub after_last: bool,
}

/// The pause after the call for chunk `index` of `count`.
pub open spec fn pause_after(pacing: Pacing, index: int, count: int) -> u64 {
    if index + 1 < count || pacing.after_last {
        pacing.delay_ms
    } else {
        0
    }
}

pub fn delay_after(pacing: Pacing, index: usize, count: usize) -> (r: u64)
    requires
        index < count,
    ensures
        r == pause_after(pacing, index as int, count as int),
{
    if index + 1 < count || pacing.after_last {
        pacing.delay_ms
    } else {
        0
    }
}

#[derive(Clone, Copy, Debug, PartialEq, Eq, Structural)]
pub enum IngestStage {
    /// Waiting for the model's rewrite of the next chunk.
    Expanding,
    /// Waiting for the pause after a call to end.
    Pausing,
    /// Every chunk is expanded; they are ready to be indexed.
    Finished,
    /// The run stopped; nothing is to be indexed.
    Aborted,
}

#[derive(Debug)]
pub enum IngestError {
    /// The chunk with this index does not belong to the document at this place.
    ForeignChunk { index: usize },
    /// The model failed on this chunk of this document.
    Generation { path: String, index: usize },
    /// An event came that the run was not waiting for.
    OutOfOrder { index: usize },
}

pub enum IngestEvent {
    /// The model's rewrite of the chunk asked for.
    Expanded(String),
    /// The model call failed or timed out.
    ExpansionFailed,
    /// The pause is over.
    Paused,
}

pub enum IngestAction {
    /// Ask the model to rewrite chunk `index` with this prompt.
    Expand { index: usize, prompt: String },
    /// Wait this many milliseconds.
    Pause { millis: u64 },
    /// Index the enriched chunks (see `Ingestion::finish`).
    Index,
    /// Stop; report this error.
    Abort { error: IngestError },
}

/// The prompt that expands chunk `i`.
pub open spec fn prompt_at(chunks: Seq<Chunk>, i: int, k: int) -> Seq<char> {
    let p = request_parts(chunks, i, k);
    expansion_text(p.0, p.1, p.2)
}

pub open spec fn asks_expansion(a: IngestAction, chunks: Seq<Chunk>, i: int, k: int) -> bool {
    a matches IngestAction::Expand { index, prompt } && index == i && prompt@ == prompt_at(
        chunks,
        i,
        k,
    )
}

/// The ingestion of one document.
pub struct Ingestion {
    /// The chunks as the splitter made them; never changed.
    pub chunks: Vec<Chunk>,
    pub path: String,
    /// How many neighbours on each side a chunk is expanded with.
    pub window: usize,
    pub pacing: Pacing,
    /// The rewrites so far, one per chunk, in order.
    pub enriched: Vec<EnrichedChunk>,
    pub stage: IngestStage,
}

impl Ingestion {
    pub open spec fn wf(&self) -> bool {
        &&& one_document(self.chunks@, self.path@)
        &&& self.enriched@.len() <= self.chunks@.len()
        &&& forall|j: int|
            0 <= j < self.enriched@.len() ==> (#[trigger] self.enriched@[j]).path@ == self.path@
        &&& self.stage == IngestStage::Expanding ==> self.enriched@.len() < self.chunks@.len()
        &&& self.stage == IngestStage::Finished ==> self.enriched@.len() == self.chunks@.len()
    }

    /// Starts the ingestion of document `path`, whose chunks in order are `chunks`.
    /// Fails if a chunk names another document or stands at another place.
    pub fn start(chunks: Vec<Chunk>, path: String, window: usize, pacing: Pacing) -> (r: Result<
        (Ingestion, IngestAction),
        IngestError,
    >)
        ensures
            match r {
                Ok((ing, action)) => {
                    &&& one_document(chunks@, path@)
                    &&& ing.wf()
                    &&& ing.chunks@ == chunks@
                    &&& ing.path@ == path@
                    &&& ing.window == window
                    &&& ing.pacing == pacing
                    &&& ing.enriched@.len() == 0
                    &&& if chunks@.len() == 0 {
                        ing.stage == IngestStage::Finished && action is Index
                    } else {
                        ing.stage == IngestStage::Expanding && asks_expansion(
                            action,
                            chunks@,
                            0,
                            window as int,
                        )
                    }
                },
                Err(IngestError::ForeignChunk { index }) => {
                    &&& index < chunks@.len()
                    &&& one_document(chunks@.take(index as int), path@)
                    &&& !(chunks@[index as int].source_path@ == path@
                        && chunks@[index as int].sequence_index == index)
                },
                Err(_) => false,
            },
    {
        let n = chunks.len();
        let mut i: usize = 0;
        while i < n
            invariant
                n == chunks@.len(),
                i <= n,
                one_document(chunks@.take(i as int), path@),
            decreases n - i,
        {
            if !(chunks[i].source_path == path && chunks[i].sequence_index == i) {
                return Err(IngestError::ForeignChunk { index: i });
            }
            i = i + 1;
            assert forall|j: int| 0 <= j < i implies (#[trigger] chunks@.take(i as int)[j]).source_path@
                == path@ && chunks@.take(i as int)[j].sequence_index == j by {
                if j < i - 1 {
                    assert(chunks@.take(i as int)[j] == chunks@.take(i - 1)[j]);
                }
            }
        }
        assert(chunks@.take(n as int) =~= chunks@);
        let mut ing = Ingestion {
            chunks,
            path,
            window,
            pacing,
            enriched: Vec::new(),
            stage: IngestStage::Finished,
        };
        if n == 0 {
            return Ok((ing, IngestAction::Index));
        }
        ing.stage = IngestStage::Expanding;
        let action = ing.expand(0);
        Ok((ing, action))
    }

    fn expand(&self, index: usize) -> (r: IngestAction)
        requires
            index < self.chunks@.len(),
        ensures
            asks_expansion(r, self.chunks@, index as int, self.window as int),
    {
        let request = expansion_request(&self.chunks, index, self.window);
        IngestAction::Expand { index, prompt: expansion_prompt(&request) }
    }

    /// After chunk `enriched.len() - 1` and its pause: the next expansion, or the end.
    fn advance(&mut self) -> (r: IngestAction)
        requires
            old(self).wf(),
            old(self).stage != IngestStage::Aborted,
        ensures
            final(self).wf(),
            final(self).chunks == old(self).chunks,
            final(self).path == old(self).path,
            final(self).window == old(self).window,
            final(self).pacing == old(self).pacing,
            final(self).enriched == old(self).enriched,
            if old(self).enriched@.len() < old(self).chunks@.len() {
                final(self).stage == IngestStage::Expanding && asks_expansion(
                    r,
                    old(self).chunks@,
                    old(self).enriched@.len() as int,
                    old(self).window as int,
                )
            } else {
                final(self).stage == IngestStage::Finished && r is Index
            },
    {
        let i = self.enriched.len();
        if i < self.chunks.len() {
            self.stage = IngestStage::Expanding;
            self.expand(i)
        } else {
            self.stage = IngestStage::Finished;
            IngestAction::Index
        }
    }

    /// Takes what the caller saw after the last action, and says what to do next.
    /// Each chunk is expanded from the original chunks around it, never from
    /// earlier rewrites; a failed call aborts the run and names the chunk.
    pub fn on_event(&mut self, event: IngestEvent) -> (r: IngestAction)
        requires
            old(self).wf(),
        ensures
            final(self).wf(),
            final(self).chunks == old(self).chunks,
            final(self).path == old(self).path,
            final(self).window == old(self).window,
            final(self).pacing == old(self).pacing,
            ({
                let i = old(self).enriched@.len() as int;
                let n = old(self).chunks@.len() as int;
                let k = old(self).window as int;
                let chunks = old(self).chunks@;
                let before = enriched_views(old(self).enriched@);
                match (old(self).stage, event) {
                    (IngestStage::Expanding, IngestEvent::Expanded(text)) => {
                        let pause = pause_after(old(self).pacing, i, n);
                        &&& enriched_views(final(self).enriched@) == before.push(
                            (text@, old(self).path@),
                        )
                        &&& if pause > 0 {
                            final(self).stage == IngestStage::Pausing && r == (IngestAction::Pause {
                                millis: pause,
                            })
                        } else if i + 1 < n {
                            final(self).stage == IngestStage::Expanding && asks_expansion(
                                r,
                                chunks,
                                i + 1,
                                k,
                            )
                        } else {
                            final(self).stage == IngestStage::Finished && r is Index
                        }
                    },
                    (IngestStage::Expanding, IngestEvent::ExpansionFailed) => {
                        &&& final(self).enriched == old(self).enriched
                        &&& final(self).stage == IngestStage::Aborted
                        &&& r matches IngestAction::Abort {
                            error: IngestError::Generation { path, index },
                        } && path@ == old(self).path@ && index == i
                    },
                    (IngestStage::Pausing, IngestEvent::Paused) => {
                        &&& final(self).enriched == old(self).enriched
                        &&& if i < n {
                            final(self).stage == IngestStage::Expanding && asks_expansion(
                                r,
                                chunks,
                                i,
                                k,
                            )
                        } else {
                            final(self).stage == IngestStage::Finished && r is Index
                        }
                    },
                    _ => {
                        &&& final(self).enriched == old(self).enriched
                        &&& final(self).stage == IngestStage::Aborted
                        &&& r matches IngestAction::Abort { error: IngestError::OutOfOrder { index } }
                            && index == i
                    },
                }
            }),
    {
        let i = self.enriched.len();
        match (self.stage, event) {
            (IngestStage::Expanding, IngestEvent::Expanded(text)) => {
                let n = self.chunks.len();
                let ghost before = self.enriched@;
                self.stage = IngestStage::Pausing;
                self.enriched.push(EnrichedChunk { text, path: self.path.clone() });
                assert(enriched_views(self.enriched@) =~= enriched_views(before).push(
                    self.enriched@[i as int]@,
                ));
                assert forall|j: int| 0 <= j < self.enriched@.len() implies (
                #[trigger] self.enriched@[j]).path@ == self.path@ by {
                    if j < i {
                        assert(self.enriched@[j] == before[j]);
                    }
                }
                let pause = delay_after(self.pacing, i, n);
                if pause > 0 {
                    IngestAction::Pause { millis: pause }
                } else {
                    self.advance()
                }
            },
            (IngestStage::Expanding, IngestEvent::ExpansionFailed) => {
                self.stage = IngestStage::Aborted;
                IngestAction::Abort {
                    error: IngestError::Generation { path: self.path.clone(), index: i },
                }
            },
            (IngestStage::Pausing, IngestEvent::Paused) => self.advance(),
            _ => {
                self.stage = IngestStage::Aborted;
                IngestAction::Abort { error: IngestError::OutOfOrder { index: i } }
            },
        }
    }

    /// The enriched chunks of a finished run, one per chunk, in document order,
    /// each marked with the document's path.
    pub fn finish(self) -> (r: Vec<EnrichedChunk>)
        requires
            self.wf(),
            self.stage == IngestStage::Finished,
        ensures
            r@ == self.enriched@,
            r@.len() == self.chunks@.len(),
            forall|j: int| 0 <= j < r@.len() ==> (#[trigger] r@[j]).path@ == self.path@,
    {
        self.enriched
    }
}

} // verus!
