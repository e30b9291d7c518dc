//! Greedy word wrapping of a paragraph at a column width.

use vstd::prelude::*;
use vstd::string::*;
use crate::text::{lemma_trim_len, trim, trim_text};

verus! {

/// The position of the last space in `s`, if any.
pub open spec fn last_space(s: Seq<char>) -> Option<int>
    decreases s.len(),
{
    if s.len() == 0 {
        None
    } else if s.last() == ' ' {
        Some(s.len() - 1)
    } else {
        last_space(s.drop_last())
    }
}

pub proof fn lemma_last_space(s: Seq<char>)
    ensures
        last_space(s) matches Some(k) ==> 0 <= k < s.len() && s[k] == ' ',
    decreases s.len(),
{
    if s.len() > 0 && s.last() != ' ' {
        lemma_last_space(s.drop_last());
    }
}

/// Where a line of a paragraph longer than `w` ends: at the last space among
/// its first `w + 1` characters, else after `w` characters.
pub open spec fn break_point(p: Seq<char>, w: nat) -> int {
    match last_space(p.subrange(0, w as int + 1)) {
        Some(k) => k,
        None => w as int,
    }
}

/// The lines of `p` wrapped at width `w`: while the rest is longer than `w`,
/// a line ends at the break point, and the rest after it is trimmed.
pub open spec fn wrap(p: Seq<char>, w: nat) -> Seq<Seq<char>>
    decreases p.len(),
{
    if w == 0 || p.len() <= w {
        seq![p]
    } else {
        let k = break_point(p, w);
        proof {
            lemma_last_space(p.subrange(0, w as int + 1));
            lemma_trim_len(p.subrange(k, p.len() as int));
        }
        seq![p.subrange(0, k)] + wrap(trim(p.subrange(k, p.len() as int)), w)
    }
}

fn last_space_upto(s: &str, w: usize) -> (r: Option<usize>)
    requires
        w < s@.len() <= usize::MAX,
    ensures
        r matches Some(k) ==> last_space(s@.subrange(0, w + 1)) == Some(k as int),
        r is None ==> last_space(s@.subrange(0, w + 1)) is None,
{
    let mut j: usize = w + 1;
    let ghost t = s@.subrange(0, w + 1);
    assert(s@.subrange(0, j as int) =~= t);
    while j > 0
        invariant
            j <= w + 1,
            w < s@.len(),
            t == s@.subrange(0, w + 1),
            last_space(s@.subrange(0, j as int)) == last_space(t),
        decreases j,
    {
        assert(s@.subrange(0, j as int).last() == s@[j - 1]);
        if s.get_char(j - 1) == ' ' {
            return Some(j - 1);
        }
        assert(s@.subrange(0, j as int).drop_last() =~= s@.subrange(0, j - 1));
        j = j - 1;
    }
    None
}

/// The lines of `p` wrapped at column `width`.
pub fn wrap_paragraph(p: &str, width: usize) -> (r: Vec<String>)
    requires
        width > 0,
    ensures
        r.deep_view() == wrap(p@, width as nat),
{
    let mut r: Vec<String> = Vec::new();
    let mut cur: String = p.to_owned();
    loop
        invariant
            width > 0,
            r.deep_view() + wrap(cur@, width as nat) == wrap(p@, width as nat),
        decreases cur@.len(),
    {
        let n = cur.as_str().unicode_len();
        if n <= width {
            r.push(cur);
            assert(r.deep_view() =~= wrap(p@, width as nat));
            return r;
        }
        let k = match last_space_upto(cur.as_str(), width) {
            Some(k) => k,
            None => width,
        };
        proof {
            lemma_last_space(cur@.subrange(0, width + 1));
            lemma_trim_len(cur@.subrange(k as int, n as int));
        }
        let line = cur.as_str().substring_char(0, k).to_owned();
        let rest = trim_text(cur.as_str().substring_char(k, n));
        let ghost before = r.deep_view();
        r.push(line);
        assert(r.deep_view() =~= before + seq![cur@.subrange(0, k as int)]);
        assert(r.deep_view() + wrap(rest@, width as nat) =~= before + wrap(cur@, width as nat));
        cur = rest;
    }
}

} // verus!
