//! Splitting one document's text into token-bounded chunks.
use vstd::prelude::*;

use crate::text::{all_white, blank_between, chars_of, matches_at};

verus! {

/// A candidate chunk as the splitter proposes it: its text and the character
/// offset at which it starts in the document.
pub struct Piece {
    pub offset: usize,
    pub text: String,
}

impl View for Piece {
    type V = (int, Seq<char>);

    open spec fn view(&self) -> (int, Seq<char>) {
        (self.offset as int, self.text@)
    }
}

/// A contiguous span of one document's text.
pub struct Chunk {
    pub text: String,
    pub sequence_index: usize,
    pub source_path: String,
}

/// Why a document could not be cut into chunks.
#[derive(Debug, Clone, Copy, PartialEq, Eq, Structural)]
pub enum ChunkError {
    /// The piece with this index does not sit in the text where the pieces
    /// before it leave off: it overlaps them, is empty, runs past the end, differs
    /// from the text at its offset, or is separated from them by more than white space.
    Misaligned { index: usize },
    /// The piece with this index holds more tokens than allowed.
    Oversized { index: usize, tokens: usize },
    /// Text other than white space follows the last piece.
    Uncovered,
}

/// The pieces, with their character offsets, that the splitter proposes for
/// `text` under a budget of `max_tokens` tokens.
pub uninterp spec fn split_points(text: Seq<char>, max_tokens: nat) -> Seq<(int, Seq<char>)>;

/// The number of tokens of `text` in the `cl100k_base` encoding.
pub uninterp spec fn token_count(text: Seq<char>) -> nat;

pub open spec fn piece_views(pieces: Seq<Piece>) -> Seq<(int, Seq<char>)> {
    pieces.map_values(|p: Piece| p@)
}

/// Where the text after piece `i - 1` begins (0 for the first piece).
pub open spec fn end_before(pieces: Seq<(int, Seq<char>)>, i: int) -> int {
    if i <= 0 {
        0
    } else {
        pieces[i - 1].0 + pieces[i - 1].1.len()
    }
}

/// Piece `i` is non-empty, equals the text at its offset, and is separated
/// from the end of the previous piece by white space only.
pub open spec fn placed(text: Seq<char>, pieces: Seq<(int, Seq<char>)>, i: int) -> bool {
    let start = end_before(pieces, i);
    let p = pieces[i];
    &&& start <= p.0
    &&& p.1.len() > 0
    &&& p.0 + p.1.len() <= text.len()
    &&& all_white(text.subrange(start, p.0))
    &&& text.subrange(p.0, p.0 + p.1.len()) == p.1
}

/// Only white space follows the last piece.
pub open spec fn tail_blank(text: Seq<char>, pieces: Seq<(int, Seq<char>)>) -> bool {
    let start = end_before(pieces, pieces.len() as int);
    start <= text.len() && all_white(text.subrange(start, text.len() as int))
}

/// Piece `j` is placed and within the token budget.
pub open spec fn sound(
    text: Seq<char>,
    pieces: Seq<(int, Seq<char>)>,
    counts: Seq<int>,
    max_tokens: int,
    j: int,
) -> bool {
    placed(text, pieces, j) && counts[j] <= max_tokens
}

/// The pieces before `i` are placed and within the token budget.
pub open spec fn sound_before(
    text: Seq<char>,
    pieces: Seq<(int, Seq<char>)>,
    counts: Seq<int>,
    max_tokens: int,
    i: int,
) -> bool {
    forall|j: int| 0 <= j < i ==> #[trigger] sound(text, pieces, counts, max_tokens, j)
}

/// The pieces cover the text up to white space, in order, and each fits the budget.
pub open spec fn tiles(
    text: Seq<char>,
    pieces: Seq<(int, Seq<char>)>,
    counts: Seq<int>,
    max_tokens: int,
) -> bool {
    &&& sound_before(text, pieces, counts, max_tokens, pieces.len() as int)
    &&& tail_blank(text, pieces)
}

/// `chunks` are the pieces' texts, numbered from 0, all from document `path`.
pub open spec fn chunks_of(
    chunks: Seq<Chunk>,
    pieces: Seq<(int, Seq<char>)>,
    path: Seq<char>,
) -> bool {
    &&& chunks.len() == pieces.len()
    &&& forall|i: int|
        0 <= i < chunks.len() ==> {
            &&& (#[trigger] chunks[i]).text@ == pieces[i].1
            &&& chunks[i].sequence_index == i
            &&& chunks[i].source_path@ == path
        }
}

/// What cutting `text` by `pieces`, with these token counts, gives.
pub open spec fn chunking_outcome(
    text: Seq<char>,
    pieces: Seq<(int, Seq<char>)>,
    counts: Seq<int>,
    max_tokens: int,
    path: Seq<char>,
    r: Result<Vec<Chunk>, ChunkError>,
) -> bool {
    let n = pieces.len() as int;
    match r {
        Ok(chunks) => tiles(text, pieces, counts, max_tokens) && chunks_of(chunks@, pieces, path),
        Err(ChunkError::Misaligned { index }) => {
            &&& index < n
            &&& sound_before(text, pieces, counts, max_tokens, index as int)
            &&& !placed(text, pieces, index as int)
        },
        Err(ChunkError::Oversized { index, tokens }) => {
            &&& index < n
            &&& sound_before(text, pieces, counts, max_tokens, index as int)
            &&& placed(text, pieces, index as int)
            &&& tokens == counts[index as int]
            &&& tokens > max_tokens
        },
        Err(ChunkError::Uncovered) => {
            &&& sound_before(text, pieces, counts, max_tokens, n)
            &&& !tail_blank(text, pieces)
        },
    }
}

pub open spec fn counts_view(counts: Seq<usize>) -> Seq<int> {
    counts.map_values(|c: usize| c as int)
}

/// Checks the splitter's pieces against the document and the token budget, and
/// numbers them as the chunks of document `path`.
pub fn assemble_chunks(
    text: &str,
    pieces: &Vec<Piece>,
    token_counts: &Vec<usize>,
    max_tokens: usize,
    path: &str,
) -> (r: Result<Vec<Chunk>, ChunkError>)
    requires
        token_counts@.len() == pieces@.len(),
    ensures
        chunking_outcome(
            text@,
            piece_views(pieces@),
            counts_view(token_counts@),
            max_tokens as int,
            path@,
            r,
        ),
{
    let ghost pv = piece_views(pieces@);
    let ghost cv = counts_view(token_counts@);
    let chars = chars_of(text);
    let n = pieces.len();
    let mut out: Vec<Chunk> = Vec::new();
    let mut cursor: usize = 0;
    let mut i: usize = 0;
    while i < n
        invariant
            n == pieces@.len(),
            n == token_counts@.len(),
            pv == piece_views(pieces@),
            cv == counts_view(token_counts@),
            chars@ == text@,
            i <= n,
            cursor == end_before(pv, i as int),
            cursor <= chars@.len(),
            sound_before(text@, pv, cv, max_tokens as int, i as int),
            chunks_of(out@, pv.take(i as int), path@),
        decreases n - i,
    {
        let piece = &pieces[i];
        let part = chars_of(piece.text.as_str());
        assert(pv[i as int] == piece@);
        let fits = cursor <= piece.offset && part.len() > 0 && piece.offset <= chars.len()
            && blank_between(&chars, cursor, piece.offset) && matches_at(
            &chars,
            piece.offset,
            &part,
        );
        if !fits {
            return Err(ChunkError::Misaligned { index: i });
        }
        let tokens = token_counts[i];
        if tokens > max_tokens {
            return Err(ChunkError::Oversized { index: i, tokens });
        }
        proof {
            assert(cv[i as int] == tokens as int);
            assert(part@ == pv[i as int].1);
            assert(placed(text@, pv, i as int));
            assert(sound_before(text@, pv, cv, max_tokens as int, i as int));
            assert(sound(text@, pv, cv, max_tokens as int, i as int));
        }
        out.push(
            Chunk {
                text: piece.text.clone(),
                sequence_index: i,
                source_path: path.to_string(),
            },
        );
        cursor = piece.offset + part.len();
        i = i + 1;
        assert(chunks_of(out@, pv.take(i as int), path@)) by {
            assert forall|j: int| 0 <= j < out@.len() implies {
                &&& (#[trigger] out@[j]).text@ == pv.take(i as int)[j].1
                &&& out@[j].sequence_index == j
                &&& out@[j].source_path@ == path@
            } by {
                if j < i - 1 {
                    assert(pv.take(i as int)[j] == pv.take(i - 1)[j]);
                }
            }
        }
    }
    assert(pv.take(n as int) =~= pv);
    if !blank_between(&chars, cursor, chars.len()) {
        return Err(ChunkError::Uncovered);
    }
    Ok(out)
}

/// Relies on `text_splitter::TextSplitter::chunk_char_indices`, with a budget of
/// `max_tokens` tokens of `tiktoken_rs`'s `cl100k_base` encoding: the pieces and
/// their character offsets depend on the text and the budget alone, and the
/// empty text has none (the splitter drops empty pieces).
#[verifier::external_body]
fn split_text(text: &str, max_tokens: usize) -> (r: Vec<Piece>)
    ensures
        piece_views(r@) == split_points(text@, max_tokens as nat),
        text@.len() == 0 ==> r@.len() == 0,
{
    let config = text_splitter::ChunkConfig::new(max_tokens).with_sizer(
        tiktoken_rs::cl100k_base_singleton(),
    );
    text_splitter::TextSplitter::new(config).chunk_char_indices(text).map(
        |c| Piece { offset: c.char_offset, text: c.chunk.to_string() },
    ).collect()
}

/// Relies on `tiktoken_rs::CoreBPE::encode_ordinary` of the `cl100k_base`
/// encoding: the number of tokens of `text`, the measure the splitter sizes by.
#[verifier::external_body]
fn count_tokens(text: &str) -> (r: usize)
    ensures
        r == token_count(text@),
{
    tiktoken_rs::cl100k_base_singleton().encode_ordinary(text).len()
}

/// The token counts of the pieces.
pub open spec fn piece_tokens(pieces: Seq<(int, Seq<char>)>) -> Seq<int> {
    pieces.map_values(|p: (int, Seq<char>)| token_count(p.1) as int)
}

/// Cuts document `path`, whose text is `text`, into chunks of at most
/// `max_tokens` tokens each, preferring sentence and paragraph boundaries.
pub fn chunk_document(text: &str, max_tokens: usize, path: &str) -> (r: Result<
    Vec<Chunk>,
    ChunkError,
>)
    ensures
        chunking_outcome(
            text@,
            split_points(text@, max_tokens as nat),
            piece_tokens(split_points(text@, max_tokens as nat)),
            max_tokens as int,
            path@,
            r,
        ),
        text@.len() == 0 ==> (r matches Ok(chunks) && chunks@.len() == 0),
{
    let pieces = split_text(text, max_tokens);
    let ghost pv = piece_views(pieces@);
    let mut counts: Vec<usize> = Vec::new();
    let n = pieces.len();
    let mut i: usize = 0;
    while i < n
        invariant
            n == pieces@.len(),
            pv == piece_views(pieces@),
            i <= n,
            counts@.len() == i,
            counts_view(counts@) == piece_tokens(pv).take(i as int),
        decreases n - i,
    {
        let c = count_tokens(pieces[i].text.as_str());
        let ghost before = counts@;
        assert(pv[i as int] == pieces@[i as int]@);
        assert(piece_tokens(pv)[i as int] == c as int);
        counts.push(c);
        assert forall|k: int| 0 <= k <= i implies #[trigger] counts_view(counts@)[k]
            == piece_tokens(pv)[k] by {
            if k < i {
                assert(counts@[k] == before[k]);
                assert(counts_view(before)[k] == piece_tokens(pv).take(i as int)[k]);
            }
        }
        i = i + 1;
        assert(counts_view(counts@) =~= piece_tokens(pv).take(i as int));
    }
    assert(piece_tokens(pv).take(n as int) =~= piece_tokens(pv));
    let r = assemble_chunks(text, &pieces, &counts, max_tokens, path);
    proof {
        if text@.len() == 0 {
            assert(text@.subrange(0, 0) =~= Seq::<char>::empty());
        }
    }
    r
}

/// The texts of the chunks, in order.
pub open spec fn chunk_texts(chunks: Seq<Chunk>) -> Seq<Seq<char>> {
    chunks.map_values(|c: Chunk| c.text@)
}

/// The text between piece `i - 1` and piece `i`; for `i == pieces.len()`, the
/// text after the last piece.
pub open spec fn gap(text: Seq<char>, pieces: Seq<(int, Seq<char>)>, i: int) -> Seq<char> {
    let end = if i < pieces.len() {
        pieces[i].0
    } else {
        text.len() as int
    };
    text.subrange(end_before(pieces, i), end)
}

pub open spec fn gaps(text: Seq<char>, pieces: Seq<(int, Seq<char>)>) -> Seq<Seq<char>> {
    Seq::new((pieces.len() + 1) as nat, |i: int| gap(text, pieces, i))
}

/// `gaps[0] + parts[0] + gaps[1] + parts[1] + ...`, over the first `parts.len()` gaps.
pub open spec fn woven(gaps: Seq<Seq<char>>, parts: Seq<Seq<char>>) -> Seq<char>
    decreases parts.len(),
{
    if parts.len() == 0 {
        Seq::empty()
    } else {
        woven(gaps, parts.drop_last()) + gaps[parts.len() - 1] + parts.last()
    }
}

/// The parts with the gaps between them and around them.
pub open spec fn rebuilt(gaps: Seq<Seq<char>>, parts: Seq<Seq<char>>) -> Seq<char> {
    woven(gaps, parts) + gaps[parts.len() as int]
}

proof fn lemma_prefix_woven(
    text: Seq<char>,
    pieces: Seq<(int, Seq<char>)>,
    counts: Seq<int>,
    max_tokens: int,
    m: int,
)
    requires
        0 <= m <= pieces.len(),
        sound_before(text, pieces, counts, max_tokens, pieces.len() as int),
    ensures
        0 <= end_before(pieces, m) <= text.len(),
        text.subrange(0, end_before(pieces, m)) == woven(
            gaps(text, pieces),
            pieces.map_values(|p: (int, Seq<char>)| p.1).take(m),
        ),
    decreases m,
{
    let parts = pieces.map_values(|p: (int, Seq<char>)| p.1);
    if m > 0 {
        lemma_prefix_woven(text, pieces, counts, max_tokens, m - 1);
        assert(sound(text, pieces, counts, max_tokens, m - 1));
        let a = end_before(pieces, m - 1);
        let b = pieces[m - 1].0;
        let c = end_before(pieces, m);
        assert(parts.take(m).drop_last() =~= parts.take(m - 1));
        assert(gaps(text, pieces)[m - 1] == text.subrange(a, b));
        assert(text.subrange(0, c) =~= text.subrange(0, a) + text.subrange(a, b) + text.subrange(
            b,
            c,
        ));
    } else {
        assert(text.subrange(0, 0) =~= Seq::<char>::empty());
    }
}

/// Reading the chunks in order, with the white space that separates them in
/// the document put back, gives the document's text exactly: the chunks
/// neither overlap nor leave out anything but white space.
pub proof fn lemma_chunks_rebuild_text(
    text: Seq<char>,
    pieces: Seq<(int, Seq<char>)>,
    counts: Seq<int>,
    max_tokens: int,
    path: Seq<char>,
    chunks: Seq<Chunk>,
)
    requires
        tiles(text, pieces, counts, max_tokens),
        chunks_of(chunks, pieces, path),
    ensures
        gaps(text, pieces).len() == chunks.len() + 1,
        forall|i: int| 0 <= i <= chunks.len() ==> all_white(#[trigger] gaps(text, pieces)[i]),
        text == rebuilt(gaps(text, pieces), chunk_texts(chunks)),
{
    let n = pieces.len() as int;
    let parts = pieces.map_values(|p: (int, Seq<char>)| p.1);
    lemma_prefix_woven(text, pieces, counts, max_tokens, n);
    assert(parts.take(n) =~= parts);
    assert(chunk_texts(chunks) =~= parts);
    assert forall|i: int| 0 <= i <= chunks.len() implies all_white(
        #[trigger] gaps(text, pieces)[i],
    ) by {
        if i < n {
            assert(sound(text, pieces, counts, max_tokens, i));
        }
    }
    let e = end_before(pieces, n);
    assert(text =~= text.subrange(0, e) + text.subrange(e, text.len() as int));
}

/// Every chunk that `chunk_document` hands out holds at most `max_tokens` tokens.
pub proof fn lemma_chunks_within_budget(
    text: Seq<char>,
    max_tokens: nat,
    path: Seq<char>,
    chunks: Vec<Chunk>,
)
    requires
        chunking_outcome(
            text,
            split_points(text, max_tokens),
            piece_tokens(split_points(text, max_tokens)),
            max_tokens as int,
            path,
            Ok(chunks),
        ),
    ensures
        forall|i: int| 0 <= i < chunks@.len() ==> token_count(#[trigger] chunks@[i].text@) <= max_tokens,
{
    let pieces = split_points(text, max_tokens);
    assert forall|i: int| 0 <= i < chunks@.len() implies token_count(
        #[trigger] chunks@[i].text@,
    ) <= max_tokens by {
        assert(sound(text, pieces, piece_tokens(pieces), max_tokens as int, i));
    }
}

} // verus!
