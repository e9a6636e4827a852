//! The list of documents that backed an answer.
use vstd::prelude::*;

use crate::retrieval::RetrievedMatch;
use crate::text::{
    chars_of, join_strings, joined, lemma_lex_irreflexive, lemma_lex_total, lemma_lex_transitive,
    lex_less, lex_lt, views,
};

verus! {

/// The document path of each match, in order.
pub open spec fn match_paths(ms: Seq<RetrievedMatch>) -> Seq<Seq<char>> {
    ms.map_values(|m: RetrievedMatch| m.path@)
}

/// Each entry is lexicographically before every later one.
pub open spec fn strictly_sorted(s: Seq<Seq<char>>) -> bool {
    forall|i: int, j: int| 0 <= i < j < s.len() ==> lex_lt(s[i], s[j])
}

/// `a` and `b` hold the same entries, repeats aside.
pub open spec fn same_entries(a: Seq<Seq<char>>, b: Seq<Seq<char>>) -> bool {
    forall|x: Seq<char>| a.contains(x) <==> b.contains(x)
}

proof fn lemma_insert_sorted(s: Seq<Seq<char>>, p: int, x: Seq<char>)
    requires
        strictly_sorted(s),
        0 <= p <= s.len(),
        forall|q: int| 0 <= q < p ==> lex_lt(#[trigger] s[q], x),
        p < s.len() ==> lex_lt(x, s[p]),
    ensures
        strictly_sorted(s.insert(p, x)),
{
    let t = s.insert(p, x);
    assert forall|i: int, j: int| 0 <= i < j < t.len() implies lex_lt(t[i], t[j]) by {
        if j < p {
            assert(t[i] == s[i] && t[j] == s[j]);
        } else if j == p {
            assert(t[i] == s[i]);
        } else if i < p {
            assert(t[i] == s[i] && t[j] == s[j - 1]);
            assert(lex_lt(s[i], x));
            if j - 1 > p {
                assert(lex_lt(s[p], s[j - 1]));
                lemma_lex_transitive(x, s[p], s[j - 1]);
            }
            lemma_lex_transitive(s[i], x, s[j - 1]);
        } else if i == p {
            assert(t[j] == s[j - 1]);
            if j - 1 > p {
                assert(lex_lt(s[p], s[j - 1]));
                lemma_lex_transitive(x, s[p], s[j - 1]);
            }
        } else {
            assert(t[i] == s[i - 1] && t[j] == s[j - 1]);
        }
    }
}

proof fn lemma_insert_contains(s: Seq<Seq<char>>, p: int, x: Seq<char>)
    requires
        0 <= p <= s.len(),
    ensures
        forall|y: Seq<char>| s.insert(p, x).contains(y) <==> (s.contains(y) || y == x),
{
    let t = s.insert(p, x);
    assert forall|y: Seq<char>| t.contains(y) <==> (s.contains(y) || y == x) by {
        if t.contains(y) {
            let i = choose|i: int| 0 <= i < t.len() && t[i] == y;
            if i < p {
                assert(s[i] == y);
            } else if i > p {
                assert(s[i - 1] == y);
            }
        }
        if s.contains(y) {
            let i = choose|i: int| 0 <= i < s.len() && s[i] == y;
            if i < p {
                assert(t[i] == y);
            } else {
                assert(t[i + 1] == y);
            }
        }
        if y == x {
            assert(t[p] == y);
        }
    }
}

/// The documents behind `matches`: each path once, in lexicographic order.
pub fn source_list(matches: &Vec<RetrievedMatch>) -> (r: Vec<String>)
    ensures
        strictly_sorted(views(r@)),
        same_entries(views(r@), match_paths(matches@)),
{
    let n = matches.len();
    let mut out: Vec<String> = Vec::new();
    let mut keys: Vec<Vec<char>> = Vec::new();
    let mut i: usize = 0;
    while i < n
        invariant
            n == matches@.len(),
            i <= n,
            keys@.len() == out@.len(),
            forall|q: int| 0 <= q < keys@.len() ==> (#[trigger] keys@[q])@ == out@[q]@,
            strictly_sorted(views(out@)),
            same_entries(views(out@), match_paths(matches@).take(i as int)),
        decreases n - i,
    {
        let path = &matches[i].path;
        let key = chars_of(path.as_str());
        let ghost x = path@;
        let ghost s = views(out@);
        let mut p: usize = 0;
        while p < keys.len() && lex_less(&keys[p], &key)
            invariant
                keys@.len() == out@.len(),
                s == views(out@),
                key@ == x,
                forall|q: int| 0 <= q < keys@.len() ==> (#[trigger] keys@[q])@ == out@[q]@,
                p <= keys@.len(),
                forall|q: int| 0 <= q < p ==> lex_lt(#[trigger] s[q], x),
            decreases keys@.len() - p,
        {
            p = p + 1;
        }
        assert(match_paths(matches@).take(i as int + 1) =~= match_paths(matches@).take(
            i as int,
        ).push(x));
        assert forall|y: Seq<char>| #[trigger]
            match_paths(matches@).take(i as int + 1).contains(y) <==> (match_paths(
                matches@,
            ).take(i as int).contains(y) || y == x) by {
            let old_paths = match_paths(matches@).take(i as int);
            let new_paths = match_paths(matches@).take(i as int + 1);
            if new_paths.contains(y) {
                let j = choose|j: int| 0 <= j < new_paths.len() && new_paths[j] == y;
                if j < i {
                    assert(old_paths[j] == y);
                }
            }
            if old_paths.contains(y) {
                let j = choose|j: int| 0 <= j < old_paths.len() && old_paths[j] == y;
                assert(new_paths[j] == y);
            }
            if y == x {
                assert(new_paths[i as int] == y);
            }
        }
        let present = p < keys.len() && !lex_less(&key, &keys[p]);
        if present {
            proof {
                assert(s[p as int] == keys@[p as int]@);
                if s[p as int] != x {
                    lemma_lex_total(s[p as int], x);
                }
                assert(s.contains(x));
                assert(views(out@) == s);
                assert(same_entries(views(out@), match_paths(matches@).take(i as int + 1)));
            }
        } else {
            proof {
                if p < keys@.len() {
                    assert(s[p as int] == keys@[p as int]@);
                }
                lemma_insert_sorted(s, p as int, x);
                lemma_insert_contains(s, p as int, x);
            }
            let ghost old_keys = keys@;
            let ghost old_out = out@;
            out.insert(p, path.clone());
            keys.insert(p, key);
            assert(views(out@) =~= s.insert(p as int, x));
            assert forall|q: int| 0 <= q < keys@.len() implies (#[trigger] keys@[q])@ == out@[q]@ by {
                if q < p {
                    assert(keys@[q] == old_keys[q] && out@[q] == old_out[q]);
                } else if q > p {
                    assert(keys@[q] == old_keys[q - 1] && out@[q] == old_out[q - 1]);
                }
            }
            assert forall|y: Seq<char>| views(out@).contains(y) <==> match_paths(matches@).take(
                i as int + 1,
            ).contains(y) by {
                assert(s.insert(p as int, x).contains(y) <==> (s.contains(y) || y == x));
                assert(s.contains(y) <==> match_paths(matches@).take(i as int).contains(y));
            }
        }
        i = i + 1;
    }
    assert(match_paths(matches@).take(n as int) =~= match_paths(matches@));
    out
}

/// A source list names no document twice.
pub proof fn lemma_sources_distinct(s: Seq<Seq<char>>)
    requires
        strictly_sorted(s),
    ensures
        forall|i: int, j: int| 0 <= i < s.len() && 0 <= j < s.len() && i != j ==> s[i] != s[j],
{
    assert forall|i: int, j: int|
        0 <= i < s.len() && 0 <= j < s.len() && i != j implies s[i] != s[j] by {
        lemma_lex_irreflexive(s[i]);
        lemma_lex_irreflexive(s[j]);
    }
}

/// A source list as it is shown under an answer: the paths separated by ", ".
pub fn sources_line(sources: &Vec<String>) -> (r: String)
    ensures
        r@ == joined(views(sources@), ", "@),
{
    join_strings(sources, ", ")
}

} // verus!
