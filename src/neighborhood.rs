//! The window of neighbouring chunks around the chunk being expanded.
use vstd::prelude::*;

use crate::chunker::{chunk_texts, Chunk};
use crate::prompts::{CHUNK_SEPARATOR, EXPAND_CURRENT, EXPAND_INTRO, EXPAND_NEXT, EXPAND_RULES};
use crate::text::{join_strings, joined, views};

verus! {

/// First index of the previous neighbours of chunk `i`, with window size `k`.
pub open spec fn previous_start(i: int, k: int) -> int {
    if i >= k {
        i - k
    } else {
        0
    }
}

/// One past the last index of the next neighbours of chunk `i` among `n` chunks.
pub open spec fn next_end(i: int, k: int, n: int) -> int {
    if i + 1 + k <= n {
        i + 1 + k
    } else {
        n
    }
}

/// The chunks before chunk `i` in its window, in document order.
pub open spec fn previous_of(chunks: Seq<Chunk>, i: int, k: int) -> Seq<Chunk> {
    chunks.subrange(previous_start(i, k), i)
}

/// The chunks after chunk `i` in its window, in document order.
pub open spec fn next_of(chunks: Seq<Chunk>, i: int, k: int) -> Seq<Chunk> {
    chunks.subrange(i + 1, next_end(i, k, chunks.len() as int))
}

/// The texts of the neighbours of one chunk.
pub struct Neighborhood {
    pub previous: Vec<String>,
    pub next: Vec<String>,
}

/// What the model is given to expand one chunk: the previous neighbours'
/// texts, one per line, the chunk's own text, and the next neighbours' texts.
pub struct ExpansionRequest {
    pub previous: String,
    pub input: String,
    pub next: String,
}

fn texts_between(chunks: &Vec<Chunk>, from: usize, to: usize) -> (r: Vec<String>)
    requires
        from <= to <= chunks@.len(),
    ensures
        views(r@) == chunk_texts(chunks@.subrange(from as int, to as int)),
{
    let mut out: Vec<String> = Vec::new();
    let mut j: usize = from;
    while j < to
        invariant
            from <= j <= to <= chunks@.len(),
            out@.len() == j - from,
            views(out@) == chunk_texts(chunks@.subrange(from as int, j as int)),
        decreases to - j,
    {
        let t = chunks[j].text.clone();
        let ghost before = out@;
        out.push(t);
        j = j + 1;
        assert(views(out@) =~= chunk_texts(chunks@.subrange(from as int, j as int))) by {
            assert(views(before) == chunk_texts(chunks@.subrange(from as int, j - 1)));
            assert forall|m: int| 0 <= m < j - from implies views(out@)[m] == chunk_texts(
                chunks@.subrange(from as int, j as int),
            )[m] by {
                if m < j - from - 1 {
                    assert(out@[m] == before[m]);
                    assert(views(before)[m] == chunk_texts(chunks@.subrange(from as int, j - 1))[m]);
                }
            }
        }
    }
    out
}

/// The neighbours of chunk `index`: up to `k` chunks on each side, cut short at
/// the ends of the document rather than wrapped around.
pub fn neighborhood(chunks: &Vec<Chunk>, index: usize, k: usize) -> (r: Neighborhood)
    requires
        index < chunks@.len(),
    ensures
        views(r.previous@) == chunk_texts(previous_of(chunks@, index as int, k as int)),
        views(r.next@) == chunk_texts(next_of(chunks@, index as int, k as int)),
{
    let n = chunks.len();
    let start = if index >= k {
        index - k
    } else {
        0
    };
    let end = if k <= n - index - 1 {
        index + 1 + k
    } else {
        n
    };
    Neighborhood { previous: texts_between(chunks, start, index), next: texts_between(chunks, index + 1, end) }
}

/// The request that expands chunk `i`, in the model's own terms.
pub open spec fn request_parts(chunks: Seq<Chunk>, i: int, k: int) -> (Seq<char>, Seq<char>, Seq<char>) {
    (
        joined(chunk_texts(previous_of(chunks, i, k)), CHUNK_SEPARATOR@),
        chunks[i].text@,
        joined(chunk_texts(next_of(chunks, i, k)), CHUNK_SEPARATOR@),
    )
}

/// Builds the request that expands chunk `index` from the chunks as the
/// splitter made them.
pub fn expansion_request(chunks: &Vec<Chunk>, index: usize, k: usize) -> (r: ExpansionRequest)
    requires
        index < chunks@.len(),
    ensures
        (r.previous@, r.input@, r.next@) == request_parts(chunks@, index as int, k as int),
{
    let hood = neighborhood(chunks, index, k);
    ExpansionRequest {
        previous: join_strings(&hood.previous, CHUNK_SEPARATOR),
        input: chunks[index].text.clone(),
        next: join_strings(&hood.next, CHUNK_SEPARATOR),
    }
}

/// The instruction text for the three parts of an expansion request.
pub open spec fn expansion_text(previous: Seq<char>, input: Seq<char>, next: Seq<char>) -> Seq<
    char,
> {
    EXPAND_INTRO@ + previous + EXPAND_CURRENT@ + input + EXPAND_NEXT@ + next + EXPAND_RULES@
}

/// The full prompt for the model.
pub fn expansion_prompt(request: &ExpansionRequest) -> (r: String)
    ensures
        r@ == expansion_text(request.previous@, request.input@, request.next@),
{
    let mut out = String::from_str(EXPAND_INTRO);
    out.append(request.previous.as_str());
    out.append(EXPAND_CURRENT);
    out.append(request.input.as_str());
    out.append(EXPAND_NEXT);
    out.append(request.next.as_str());
    out.append(EXPAND_RULES);
    out
}

/// The first chunk has no previous neighbours and the last chunk has no next ones.
pub proof fn lemma_window_ends(chunks: Seq<Chunk>, k: int)
    requires
        chunks.len() > 0,
        k >= 0,
    ensures
        previous_of(chunks, 0, k).len() == 0,
        next_of(chunks, chunks.len() - 1, k).len() == 0,
{
}

/// The chunks of document `path`, numbered from 0 in order.
pub open spec fn one_document(chunks: Seq<Chunk>, path: Seq<char>) -> bool {
    forall|i: int|
        0 <= i < chunks.len() ==> (#[trigger] chunks[i]).source_path@ == path
            && chunks[i].sequence_index == i
}

/// Within one document's chunk sequence, the neighbours of a chunk come from that
/// same document, at most `k` places before or after it, and never the chunk itself.
pub proof fn lemma_window_stays_in_document(chunks: Seq<Chunk>, path: Seq<char>, i: int, k: int)
    requires
        one_document(chunks, path),
        0 <= i < chunks.len(),
        k >= 0,
    ensures
        forall|j: int|
            0 <= j < previous_of(chunks, i, k).len() ==> {
                let c = #[trigger] previous_of(chunks, i, k)[j];
                &&& c.source_path@ == path
                &&& i - k <= c.sequence_index < i
            },
        forall|j: int|
            0 <= j < next_of(chunks, i, k).len() ==> {
                let c = #[trigger] next_of(chunks, i, k)[j];
                &&& c.source_path@ == path
                &&& i < c.sequence_index <= i + k
            },
{
    assert forall|j: int| 0 <= j < previous_of(chunks, i, k).len() implies {
        let c = #[trigger] previous_of(chunks, i, k)[j];
        &&& c.source_path@ == path
        &&& i - k <= c.sequence_index < i
    } by {
        assert(previous_of(chunks, i, k)[j] == chunks[previous_start(i, k) + j]);
    }
    assert forall|j: int| 0 <= j < next_of(chunks, i, k).len() implies {
        let c = #[trigger] next_of(chunks, i, k)[j];
        &&& c.source_path@ == path
        &&& i < c.sequence_index <= i + k
    } by {
        assert(next_of(chunks, i, k)[j] == chunks[i + 1 + j]);
    }
}

} // verus!
