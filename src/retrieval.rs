//! Choosing which retrieved passages back an answer, and naming their documents.
use vstd::prelude::*;

use crate::prompts::CONTEXT_SEPARATOR;
use crate::text::{join_strings, joined, views};

verus! {

/// One passage that the vector store returned for a query. `score` is the
/// similarity in millionths (0.55 is 550000).
pub struct RetrievedMatch {
    pub content: String,
    pub score: i64,
    pub path: String,
}

impl View for RetrievedMatch {
    type V = (Seq<char>, int, Seq<char>);

    open spec fn view(&self) -> (Seq<char>, int, Seq<char>) {
        (self.content@, self.score as int, self.path@)
    }
}

pub open spec fn match_views(v: Seq<RetrievedMatch>) -> Seq<(Seq<char>, int, Seq<char>)> {
    v.map_values(|m: RetrievedMatch| m@)
}

/// The matches whose score reaches `threshold`, in their order.
pub open spec fn kept(ms: Seq<(Seq<char>, int, Seq<char>)>, threshold: int) -> Seq<
    (Seq<char>, int, Seq<char>),
>
    decreases ms.len(),
{
    if ms.len() == 0 {
        ms
    } else {
        let rest = kept(ms.drop_last(), threshold);
        if ms.last().1 >= threshold {
            rest.push(ms.last())
        } else {
            rest
        }
    }
}

/// The context of an answer: among the first `k` matches, those that reach the threshold.
pub open spec fn selected(ms: Seq<(Seq<char>, int, Seq<char>)>, k: int, threshold: int) -> Seq<
    (Seq<char>, int, Seq<char>),
> {
    kept(ms.take(if k < ms.len() { k } else { ms.len() as int }), threshold)
}

fn copy_match(m: &RetrievedMatch) -> (r: RetrievedMatch)
    ensures
        r@ == m@,
{
    RetrievedMatch { content: m.content.clone(), score: m.score, path: m.path.clone() }
}

/// Keeps, of the first `k` matches as the store ranked them, those whose score
/// is at least `threshold`, in the same order. No match is no error: the
/// result is then empty.
pub fn select_context(matches: &Vec<RetrievedMatch>, k: usize, threshold: i64) -> (r: Vec<
    RetrievedMatch,
>)
    ensures
        match_views(r@) == selected(match_views(matches@), k as int, threshold as int),
{
    let ghost all = match_views(matches@);
    let n = if k < matches.len() {
        k
    } else {
        matches.len()
    };
    let mut out: Vec<RetrievedMatch> = Vec::new();
    let mut i: usize = 0;
    while i < n
        invariant
            n <= matches@.len(),
            n == (if k < matches@.len() { k as int } else { matches@.len() as int }),
            all == match_views(matches@),
            i <= n,
            match_views(out@) == kept(all.take(i as int), threshold as int),
        decreases n - i,
    {
        let ghost before = out@;
        assert(all.take(i as int + 1).drop_last() =~= all.take(i as int));
        assert(all.take(i as int + 1).last() == matches@[i as int]@);
        if matches[i].score >= threshold {
            let m = copy_match(&matches[i]);
            out.push(m);
            assert(match_views(out@) =~= match_views(before).push(m@));
        }
        i = i + 1;
    }
    assert(all.take(n as int) == match_views(matches@).take(n as int));
    out
}

/// Every kept match reaches the threshold.
pub proof fn lemma_kept_reach_threshold(ms: Seq<(Seq<char>, int, Seq<char>)>, threshold: int)
    ensures
        forall|i: int|
            0 <= i < kept(ms, threshold).len() ==> (#[trigger] kept(ms, threshold)[i]).1 >= threshold,
    decreases ms.len(),
{
    if ms.len() > 0 {
        lemma_kept_reach_threshold(ms.drop_last(), threshold);
        let rest = kept(ms.drop_last(), threshold);
        assert(forall|i: int| 0 <= i < rest.len() ==> rest.push(ms.last())[i] == rest[i]);
    }
}

proof fn lemma_kept_len(ms: Seq<(Seq<char>, int, Seq<char>)>, threshold: int)
    ensures
        kept(ms, threshold).len() <= ms.len(),
    decreases ms.len(),
{
    if ms.len() > 0 {
        lemma_kept_len(ms.drop_last(), threshold);
    }
}

proof fn lemma_kept_bounded(ms: Seq<(Seq<char>, int, Seq<char>)>, threshold: int, low: int)
    requires
        forall|i: int| 0 <= i < ms.len() ==> (#[trigger] ms[i]).1 >= low,
    ensures
        forall|i: int|
            0 <= i < kept(ms, threshold).len() ==> (#[trigger] kept(ms, threshold)[i]).1 >= low,
    decreases ms.len(),
{
    if ms.len() > 0 {
        assert(forall|i: int| 0 <= i < ms.drop_last().len() ==> ms.drop_last()[i] == ms[i]);
        lemma_kept_bounded(ms.drop_last(), threshold, low);
        let rest = kept(ms.drop_last(), threshold);
        assert(ms.last() == ms[ms.len() - 1]);
        assert(forall|i: int| 0 <= i < rest.len() ==> rest.push(ms.last())[i] == rest[i]);
    }
}

/// Matches ranked by descending score stay so ranked once the low ones are dropped.
pub proof fn lemma_kept_descending(ms: Seq<(Seq<char>, int, Seq<char>)>, threshold: int)
    requires
        forall|i: int, j: int| 0 <= i < j < ms.len() ==> ms[i].1 >= ms[j].1,
    ensures
        forall|i: int, j: int|
            0 <= i < j < kept(ms, threshold).len() ==> kept(ms, threshold)[i].1 >= kept(
                ms,
                threshold,
            )[j].1,
    decreases ms.len(),
{
    if ms.len() > 0 {
        let front = ms.drop_last();
        assert(forall|i: int| 0 <= i < front.len() ==> front[i] == ms[i]);
        lemma_kept_descending(front, threshold);
        assert(forall|i: int| 0 <= i < front.len() ==> (#[trigger] front[i]).1 >= ms.last().1);
        lemma_kept_bounded(front, threshold, ms.last().1);
        let rest = kept(front, threshold);
        assert(forall|i: int| 0 <= i < rest.len() ==> rest.push(ms.last())[i] == rest[i]);
    }
}

pub proof fn lemma_kept_all_reach(ms: Seq<(Seq<char>, int, Seq<char>)>, threshold: int)
    requires
        forall|i: int| 0 <= i < ms.len() ==> (#[trigger] ms[i]).1 >= threshold,
    ensures
        kept(ms, threshold) == ms,
    decreases ms.len(),
{
    if ms.len() > 0 {
        lemma_kept_all_reach(ms.drop_last(), threshold);
        assert(ms.drop_last().push(ms.last()) =~= ms);
    }
}

/// Keeping twice with the same threshold keeps the same matches as keeping once.
pub proof fn lemma_kept_idempotent(ms: Seq<(Seq<char>, int, Seq<char>)>, threshold: int)
    ensures
        kept(kept(ms, threshold), threshold) == kept(ms, threshold),
{
    lemma_kept_reach_threshold(ms, threshold);
    lemma_kept_all_reach(kept(ms, threshold), threshold);
}

/// Retrieval is repeatable: for the same ranked store results, the same `k` and
/// the same threshold, two runs give the same context; and running the
/// selection again on a context it produced gives that context back.
pub proof fn lemma_retrieval_repeatable(
    ms: Seq<(Seq<char>, int, Seq<char>)>,
    k: int,
    threshold: int,
    first: Seq<(Seq<char>, int, Seq<char>)>,
    second: Seq<(Seq<char>, int, Seq<char>)>,
)
    requires
        0 <= k,
        first == selected(ms, k, threshold),
        second == selected(ms, k, threshold),
    ensures
        first == second,
        selected(first, k, threshold) == first,
{
    let n = if k < ms.len() {
        k
    } else {
        ms.len() as int
    };
    lemma_kept_idempotent(ms.take(n), threshold);
    lemma_kept_len(ms.take(n), threshold);
    assert(first.take(if k < first.len() { k } else { first.len() as int }) =~= first);
}

/// No match in a selected context scores below the threshold.
pub proof fn lemma_selected_reach_threshold(
    ms: Seq<(Seq<char>, int, Seq<char>)>,
    k: int,
    threshold: int,
)
    ensures
        forall|i: int|
            0 <= i < selected(ms, k, threshold).len() ==> (#[trigger] selected(
                ms,
                k,
                threshold,
            )[i]).1 >= threshold,
{
    let n = if k < ms.len() {
        k
    } else {
        ms.len() as int
    };
    lemma_kept_reach_threshold(ms.take(n), threshold);
}

/// The passages' texts, in order.
pub open spec fn contents(ms: Seq<(Seq<char>, int, Seq<char>)>) -> Seq<Seq<char>> {
    ms.map_values(|m: (Seq<char>, int, Seq<char>)| m.0)
}

/// The passages as the model reads them: their texts, separated by a blank line.
pub fn context_text(matches: &Vec<RetrievedMatch>) -> (r: String)
    ensures
        r@ == joined(contents(match_views(matches@)), CONTEXT_SEPARATOR@),
{
    let mut texts: Vec<String> = Vec::new();
    let n = matches.len();
    let mut i: usize = 0;
    while i < n
        invariant
            n == matches@.len(),
            i <= n,
            texts@.len() == i,
            forall|j: int| 0 <= j < i ==> (#[trigger] texts@[j])@ == matches@[j].content@,
        decreases n - i,
    {
        texts.push(matches[i].content.clone());
        i = i + 1;
    }
    assert(views(texts@) =~= contents(match_views(matches@)));
    join_strings(&texts, CONTEXT_SEPARATOR)
}

} // verus!
