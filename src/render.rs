//! The lines that the print and index commands show.

use vstd::prelude::*;
use vstd::string::*;
use crate::editor::FormatMode;
use crate::index::IndexEntry;
use crate::numeral::{decimal, push_decimal};
use crate::wrap::{wrap, wrap_paragraph};

verus! {

/// A line that starts with the index `i` of its paragraph: `"{i}: {t}"`.
pub open spec fn numbered(i: int, t: Seq<char>) -> Seq<char> {
    decimal(i as nat) + ": "@ + t
}

/// The lines of paragraph `i` under `mode`: the paragraph on one numbered
/// line, or wrapped, with the number before its first line.
pub open spec fn paragraph_lines(i: int, t: Seq<char>, mode: FormatMode) -> Seq<Seq<char>> {
    match mode {
        FormatMode::Raw => seq![numbered(i, t)],
        FormatMode::Fix(w) => {
            let ls = wrap(t, w as nat);
            seq![numbered(i, ls[0])] + ls.drop_first()
        },
    }
}

/// The lines of the first `n` paragraphs of `ps`, in store order.
pub open spec fn render_upto(ps: Seq<Seq<char>>, mode: FormatMode, n: int) -> Seq<Seq<char>>
    decreases n,
{
    if n <= 0 {
        seq![]
    } else {
        render_upto(ps, mode, n - 1) + paragraph_lines(n - 1, ps[n - 1], mode)
    }
}

/// What the print command shows for the paragraphs `ps` under `mode`.
pub open spec fn render(ps: Seq<Seq<char>>, mode: FormatMode) -> Seq<Seq<char>> {
    render_upto(ps, mode, ps.len() as int)
}

/// The indices `s` written out, separated by `", "`.
pub open spec fn join_indices(s: Seq<usize>) -> Seq<char>
    decreases s.len(),
{
    if s.len() == 0 {
        seq![]
    } else if s.len() == 1 {
        decimal(s[0] as nat)
    } else {
        join_indices(s.drop_last()) + ", "@ + decimal(s.last() as nat)
    }
}

/// The line the index command shows for a word: `"{word}: {i}, {j}, ..."`.
pub open spec fn index_line(word: Seq<char>, s: Seq<usize>) -> Seq<char> {
    word + ": "@ + join_indices(s)
}

fn numbered_line(i: usize, t: &str) -> (r: String)
    ensures
        r@ == numbered(i as int, t@),
{
    let mut out = String::new();
    push_decimal(&mut out, i);
    out.append(": ");
    out.append(t);
    assert(out@ =~= numbered(i as int, t@));
    out
}

fn lines_of(i: usize, t: &str, mode: FormatMode) -> (r: Vec<String>)
    requires
        mode.wf(),
    ensures
        r.deep_view() == paragraph_lines(i as int, t@, mode),
{
    match mode {
        FormatMode::Raw => {
            let mut r: Vec<String> = Vec::new();
            r.push(numbered_line(i, t));
            assert(r.deep_view() =~= paragraph_lines(i as int, t@, mode));
            r
        },
        FormatMode::Fix(w) => {
            let mut ls = wrap_paragraph(t, w);
            assert(wrap(t@, w as nat).len() > 0);
            assert(ls.deep_view().len() == ls.len());
            let first = numbered_line(i, ls[0].as_str());
            ls.set(0, first);
            assert(ls.deep_view() =~= paragraph_lines(i as int, t@, mode));
            ls
        },
    }
}

/// The lines the print command shows for `ps` under `mode`.
pub fn render_lines(ps: &Vec<String>, mode: FormatMode) -> (r: Vec<String>)
    requires
        mode.wf(),
    ensures
        r.deep_view() == render(ps.deep_view(), mode),
{
    let mut r: Vec<String> = Vec::new();
    let mut i: usize = 0;
    while i < ps.len()
        invariant
            mode.wf(),
            i <= ps.len(),
            r.deep_view() == render_upto(ps.deep_view(), mode, i as int),
        decreases ps.len() - i,
    {
        let mut ls = lines_of(i, ps[i].as_str(), mode);
        let ghost before = r.deep_view();
        let ghost added = ls.deep_view();
        r.append(&mut ls);
        assert(r.deep_view() =~= before + added);
        i = i + 1;
    }
    r
}

fn index_line_of(e: &IndexEntry) -> (r: String)
    ensures
        r@ == index_line(e.word@, e.paragraphs@),
{
    let mut out = String::new();
    out.append(e.word.as_str());
    out.append(": ");
    let mut j: usize = 0;
    while j < e.paragraphs.len()
        invariant
            j <= e.paragraphs.len(),
            out@ == e.word@ + ": "@ + join_indices(e.paragraphs@.subrange(0, j as int)),
        decreases e.paragraphs.len() - j,
    {
        let ghost pre = e.paragraphs@.subrange(0, j as int);
        assert(e.paragraphs@.subrange(0, j + 1).drop_last() =~= pre);
        if j > 0 {
            out.append(", ");
        }
        push_decimal(&mut out, e.paragraphs[j]);
        assert(out@ =~= e.word@ + ": "@ + join_indices(e.paragraphs@.subrange(0, j + 1)));
        j = j + 1;
    }
    assert(e.paragraphs@.subrange(0, j as int) =~= e.paragraphs@);
    out
}

/// The lines the index command shows for `entries`, one per entry.
pub fn index_lines(entries: &Vec<IndexEntry>) -> (r: Vec<String>)
    ensures
        r.len() == entries.len(),
        forall|a: int|
            0 <= a < r.len() ==> (#[trigger] r[a])@ == index_line(
                entries[a].word@,
                entries[a].paragraphs@,
            ),
{
    let mut r: Vec<String> = Vec::new();
    let mut a: usize = 0;
    while a < entries.len()
        invariant
            a <= entries.len(),
            r.len() == a,
            forall|b: int|
                0 <= b < a ==> (#[trigger] r[b])@ == index_line(
                    entries[b].word@,
                    entries[b].paragraphs@,
                ),
        decreases entries.len() - a,
    {
        r.push(index_line_of(&entries[a]));
        a = a + 1;
    }
    r
}

} // verus!
