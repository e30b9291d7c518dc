//! Command lines: their tokens, keyword matching and the exit test.

use vstd::prelude::*;
use vstd::string::*;
use crate::text::{trim, trim_text, words, split_words};

verus! {

/// `t` spells the lower-case keyword `kw`, in any mix of ASCII case. For the
/// ASCII keywords of the commands, none of which holds a `k`, this is the
/// same as comparing `kw` with the Unicode lower case of `t`.
pub open spec fn same_letters(t: Seq<char>, kw: Seq<char>) -> bool {
    &&& t.len() == kw.len()
    &&& forall|i: int|
        0 <= i < t.len() ==> #[trigger] t[i] == kw[i] || (65 <= t[i] as u32 <= 90 && t[i] as u32
            + 32 == kw[i] as u32)
}

/// Whether `t` spells the lower-case keyword `kw`, ignoring ASCII case.
pub fn is_keyword(t: &str, kw: &str) -> (r: bool)
    ensures
        r == same_letters(t@, kw@),
{
    let n = t.unicode_len();
    if n != kw.unicode_len() {
        return false;
    }
    let mut i: usize = 0;
    while i < n
        invariant
            n == t@.len() == kw@.len(),
            i <= n,
            forall|k: int|
                0 <= k < i ==> #[trigger] t@[k] == kw@[k] || (65 <= t@[k] as u32 <= 90 && t@[k] as u32
                    + 32 == kw@[k] as u32),
        decreases n - i,
    {
        let a = t.get_char(i);
        let b = kw.get_char(i);
        let an = a as u32;
        if !(a == b || (65 <= an && an <= 90 && an + 32 == b as u32)) {
            return false;
        }
        i = i + 1;
    }
    true
}

/// The whitespace-separated tokens of one command line; the first is the verb.
pub struct UserInput {
    tokens: Vec<String>,
}

impl View for UserInput {
    type V = Seq<Seq<char>>;

    closed spec fn view(&self) -> Seq<Seq<char>> {
        self.tokens.deep_view()
    }
}

impl UserInput {
    pub fn new(tokens: Vec<String>) -> (r: UserInput)
        ensures
            r@ == tokens.deep_view(),
    {
        UserInput { tokens }
    }

    /// The tokens of a line: trimmed, then split at ASCII whitespace.
    pub fn from_line(line: &str) -> (r: UserInput)
        ensures
            r@ == words(trim(line@)),
    {
        let t = trim_text(line);
        UserInput { tokens: split_words(t.as_str()) }
    }

    pub fn tokens(&self) -> (r: &Vec<String>)
        ensures
            r.deep_view() == self@,
    {
        &self.tokens
    }
}

/// The session ends on an empty line or on the verb `exit`, in any case.
pub open spec fn exits(tokens: Seq<Seq<char>>) -> bool {
    tokens.len() == 0 || same_letters(tokens[0], "exit"@)
}

/// Whether the line ends the session.
pub fn is_exit(user_input: &UserInput) -> (r: bool)
    ensures
        r == exits(user_input@),
{
    if user_input.tokens.len() == 0 {
        return true;
    }
    is_keyword(user_input.tokens[0].as_str(), "exit")
}

/// A free-form text as it is taken from a line: trimmed.
pub fn free_text(line: &str) -> (r: String)
    ensures
        r@ == trim(line@),
{
    trim_text(line)
}

} // verus!
