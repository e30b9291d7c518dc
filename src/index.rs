//! The inverted word index: which paragraphs each word occurs in.

use vstd::prelude::*;
use crate::text::{words, split_words};

verus! {

/// The ascending indices, below `n`, of the paragraphs of `ps` among whose
/// words `w` occurs.
pub open spec fn occurrences_upto(ps: Seq<Seq<char>>, w: Seq<char>, n: int) -> Seq<usize>
    decreases n,
{
    if n <= 0 {
        seq![]
    } else if words(ps[n - 1]).contains(w) {
        occurrences_upto(ps, w, n - 1).push((n - 1) as usize)
    } else {
        occurrences_upto(ps, w, n - 1)
    }
}

/// The ascending indices of the paragraphs of `ps` that hold the word `w`.
pub open spec fn occurrences(ps: Seq<Seq<char>>, w: Seq<char>) -> Seq<usize> {
    occurrences_upto(ps, w, ps.len() as int)
}

/// A word is reported when it occurs in more than three paragraphs.
pub open spec fn is_frequent(ps: Seq<Seq<char>>, w: Seq<char>) -> bool {
    occurrences(ps, w).len() > 3
}

/// `x` is a word of some paragraph of `ps`.
pub open spec fn occurs_somewhere(ps: Seq<Seq<char>>, x: Seq<char>) -> bool {
    exists|i: int| 0 <= i < ps.len() && #[trigger] words(ps[i]).contains(x)
}

/// `x` is among the first `k` items of `s`.
pub open spec fn in_prefix(s: Seq<Seq<char>>, k: int, x: Seq<char>) -> bool {
    exists|c: int| 0 <= c < k && s[c] == x
}

/// Some entry of `r` is for the word `x`.
pub open spec fn listed(r: Seq<IndexEntry>, x: Seq<char>) -> bool {
    exists|a: int| 0 <= a < r.len() && r[a].word@ == x
}

/// A word and the paragraphs that hold it, in ascending order.
#[derive(Debug, Clone)]
pub struct IndexEntry {
    pub word: String,
    pub paragraphs: Vec<usize>,
}

proof fn lemma_occurrence_witness(ps: Seq<Seq<char>>, w: Seq<char>, n: int)
    requires
        0 <= n <= ps.len(),
        occurrences_upto(ps, w, n).len() > 0,
    ensures
        exists|i: int| 0 <= i < n && #[trigger] words(ps[i]).contains(w),
    decreases n,
{
    if !words(ps[n - 1]).contains(w) {
        lemma_occurrence_witness(ps, w, n - 1);
    }
}

fn contains_word(v: &Vec<String>, w: &String) -> (r: bool)
    ensures
        r == v.deep_view().contains(w@),
{
    let mut i: usize = 0;
    while i < v.len()
        invariant
            i <= v.len(),
            forall|k: int| 0 <= k < i ==> v.deep_view()[k] != w@,
        decreases v.len() - i,
    {
        if v[i] == *w {
            assert(v.deep_view()[i as int] == w@);
            return true;
        }
        i = i + 1;
    }
    false
}

fn paragraph_words(ps: &Vec<String>) -> (r: Vec<Vec<String>>)
    ensures
        r.len() == ps.len(),
        forall|i: int| 0 <= i < ps.len() ==> (#[trigger] r[i]).deep_view() == words(ps[i]@),
{
    let mut r: Vec<Vec<String>> = Vec::new();
    let mut i: usize = 0;
    while i < ps.len()
        invariant
            i <= ps.len(),
            r.len() == i,
            forall|k: int| 0 <= k < i ==> (#[trigger] r[k]).deep_view() == words(ps[k]@),
        decreases ps.len() - i,
    {
        r.push(split_words(ps[i].as_str()));
        i = i + 1;
    }
    r
}

/// Every word of the paragraphs once, in order of first appearance.
fn distinct_words(ws: &Vec<Vec<String>>, ps: Ghost<Seq<Seq<char>>>) -> (r: Vec<String>)
    requires
        ws.len() == ps@.len(),
        forall|i: int| 0 <= i < ws.len() ==> (#[trigger] ws[i]).deep_view() == words(ps@[i]),
    ensures
        forall|a: int, b: int|
            0 <= a < b < r.len() ==> r.deep_view()[a] != r.deep_view()[b],
        forall|a: int| 0 <= a < r.len() ==> occurs_somewhere(ps@, #[trigger] r.deep_view()[a]),
        forall|i: int, x: Seq<char>|
            0 <= i < ps@.len() && #[trigger] words(ps@[i]).contains(x) ==> r.deep_view().contains(
                x,
            ),
{
    let mut r: Vec<String> = Vec::new();
    let mut i: usize = 0;
    while i < ws.len()
        invariant
            i <= ws.len(),
            ws.len() == ps@.len(),
            forall|i: int| 0 <= i < ws.len() ==> (#[trigger] ws[i]).deep_view() == words(ps@[i]),
            forall|a: int, b: int|
                0 <= a < b < r.len() ==> r.deep_view()[a] != r.deep_view()[b],
            forall|a: int| 0 <= a < r.len() ==> occurs_somewhere(ps@, #[trigger] r.deep_view()[a]),
            forall|k: int, x: Seq<char>|
                0 <= k < i && #[trigger] words(ps@[k]).contains(x) ==> r.deep_view().contains(x),
        decreases ws.len() - i,
    {
        let row = &ws[i];
        let mut j: usize = 0;
        while j < row.len()
            invariant
                i < ws.len(),
                j <= row.len(),
                row == ws[i as int],
                ws.len() == ps@.len(),
                forall|i: int|
                    0 <= i < ws.len() ==> (#[trigger] ws[i]).deep_view() == words(ps@[i]),
                forall|a: int, b: int|
                    0 <= a < b < r.len() ==> r.deep_view()[a] != r.deep_view()[b],
                forall|a: int| 0 <= a < r.len() ==> occurs_somewhere(ps@, #[trigger] r.deep_view()[a]),
                forall|k: int, x: Seq<char>|
                    0 <= k < i && #[trigger] words(ps@[k]).contains(x) ==> r.deep_view().contains(
                        x,
                    ),
                forall|b: int| 0 <= b < j ==> r.deep_view().contains(#[trigger] row.deep_view()[b]),
            decreases row.len() - j,
        {
            let ghost before = r.deep_view();
            if !contains_word(&r, &row[j]) {
                r.push(row[j].clone());
                assert(r.deep_view() =~= before.push(row[j as int]@));
                assert(row.deep_view()[j as int] == row[j as int]@);
                assert(words(ps@[i as int])[j as int] == r.deep_view()[r.len() - 1]);
                assert(words(ps@[i as int]).contains(r.deep_view()[r.len() - 1]));
                assert forall|a: int| 0 <= a < r.len() implies occurs_somewhere(
                    ps@,
                    #[trigger] r.deep_view()[a],
                ) by {
                    if a < r.len() - 1 {
                        assert(r.deep_view()[a] == before[a]);
                    }
                }
                assert forall|x: Seq<char>| before.contains(x) implies r.deep_view().contains(x) by {
                    let a = choose|a: int| 0 <= a < before.len() && before[a] == x;
                    assert(r.deep_view()[a] == x);
                }
                assert(r.deep_view()[r.len() - 1] == row.deep_view()[j as int]);
            }
            j = j + 1;
        }
        proof {
            assert forall|k: int, x: Seq<char>|
                0 <= k < i + 1 && #[trigger] words(ps@[k]).contains(x) implies r.deep_view().contains(
                x,
            ) by {
                if k == i {
                    let b = choose|b: int| 0 <= b < row.len() && row.deep_view()[b] == x;
                    assert(r.deep_view().contains(row.deep_view()[b]));
                }
            }
        }
        i = i + 1;
    }
    r
}

/// The indices of the paragraphs whose word lists hold `w`.
fn occurrences_of(ws: &Vec<Vec<String>>, w: &String, ps: Ghost<Seq<Seq<char>>>) -> (r: Vec<usize>)
    requires
        ws.len() == ps@.len(),
        forall|i: int| 0 <= i < ws.len() ==> (#[trigger] ws[i]).deep_view() == words(ps@[i]),
    ensures
        r@ == occurrences(ps@, w@),
{
    let mut r: Vec<usize> = Vec::new();
    let mut i: usize = 0;
    while i < ws.len()
        invariant
            i <= ws.len(),
            ws.len() == ps@.len(),
            forall|i: int| 0 <= i < ws.len() ==> (#[trigger] ws[i]).deep_view() == words(ps@[i]),
            r@ == occurrences_upto(ps@, w@, i as int),
        decreases ws.len() - i,
    {
        if contains_word(&ws[i], w) {
            r.push(i);
        }
        i = i + 1;
    }
    r
}

/// The words that occur in more than three paragraphs, each once, with the
/// ascending indices of the paragraphs that hold it.
pub fn word_index(ps: &Vec<String>) -> (r: Vec<IndexEntry>)
    ensures
        forall|a: int|
            0 <= a < r.len() ==> (#[trigger] r[a]).paragraphs@ == occurrences(
                ps.deep_view(),
                r[a].word@,
            ) && is_frequent(ps.deep_view(), r[a].word@),
        forall|a: int, b: int| 0 <= a < b < r.len() ==> r[a].word@ != r[b].word@,
        forall|w: Seq<char>|
            is_frequent(ps.deep_view(), w) ==> exists|a: int|
                0 <= a < r.len() && (#[trigger] r[a]).word@ == w,
{
    let ghost model = ps.deep_view();
    let ws = paragraph_words(ps);
    assert forall|i: int| 0 <= i < ws.len() implies (#[trigger] ws[i]).deep_view() == words(
        model[i],
    ) by {
        assert(ws[i].deep_view() == words(ps[i]@));
    }
    let distinct = distinct_words(&ws, Ghost(model));
    let ghost dv = distinct.deep_view();
    let mut r: Vec<IndexEntry> = Vec::new();
    let mut k: usize = 0;
    while k < distinct.len()
        invariant
            k <= distinct.len(),
            dv == distinct.deep_view(),
            model == ps.deep_view(),
            ws.len() == model.len(),
            forall|i: int| 0 <= i < ws.len() ==> (#[trigger] ws[i]).deep_view() == words(model[i]),
            forall|a: int, b: int| 0 <= a < b < dv.len() ==> dv[a] != dv[b],
            forall|a: int|
                0 <= a < r.len() ==> (#[trigger] r[a]).paragraphs@ == occurrences(
                    model,
                    r[a].word@,
                ) && is_frequent(model, r[a].word@) && in_prefix(dv, k as int, r[a].word@),
            forall|a: int, b: int| 0 <= a < b < r.len() ==> r[a].word@ != r[b].word@,
            forall|c: int|
                0 <= c < k && is_frequent(model, #[trigger] dv[c]) ==> listed(r@, dv[c]),
        decreases distinct.len() - k,
    {
        let occ = occurrences_of(&ws, &distinct[k], Ghost(model));
        let ghost before = r@;
        let ghost x = dv[k as int];
        assert(distinct[k as int]@ == x);
        proof {
            assert forall|a: int| 0 <= a < before.len() implies in_prefix(
                dv,
                k + 1,
                (#[trigger] before[a]).word@,
            ) && before[a].word@ != x by {
                let c = choose|c: int| 0 <= c < k && dv[c] == before[a].word@;
            }
        }
        if occ.len() > 3 {
            r.push(IndexEntry { word: distinct[k].clone(), paragraphs: occ });
            assert(r[r.len() - 1].word@ == x);
            assert(in_prefix(dv, k + 1, x));
            assert(listed(r@, x));
            assert forall|c: int| 0 <= c < k && is_frequent(model, #[trigger] dv[c]) implies listed(
                r@,
                dv[c],
            ) by {
                let a = choose|a: int| 0 <= a < before.len() && before[a].word@ == dv[c];
                assert(r@[a] == before[a]);
            }
        } else {
            assert forall|c: int| 0 <= c < k + 1 && is_frequent(model, #[trigger] dv[c]) implies listed(
                r@,
                dv[c],
            ) by {
                if c == k {
                    assert(occ@ == occurrences(model, x));
                }
            }
        }
        k = k + 1;
    }
    assert forall|w: Seq<char>| is_frequent(model, w) implies exists|a: int|
        0 <= a < r.len() && (#[trigger] r[a]).word@ == w by {
        lemma_occurrence_witness(model, w, model.len() as int);
        let i = choose|i: int| 0 <= i < model.len() && #[trigger] words(model[i]).contains(w);
        let c = choose|c: int| 0 <= c < dv.len() && dv[c] == w;
        assert(is_frequent(model, dv[c]));
        let a = choose|a: int| 0 <= a < r.len() && r@[a].word@ == w;
        assert(r[a].word@ == w);
    }
    r
}

} // verus!
