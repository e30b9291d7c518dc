//! Properties of the editor's commands, stated over their models and proved.

use vstd::prelude::*;
use crate::commands::{
    Command,
    Handler,
    Outcome,
    answer,
    insert_outcome,
    replace_outcome,
    target,
};
use crate::editor::{CommandError, FormatMode};
use crate::numeral::{is_numeral, parse_usize_spec};
use crate::render::{numbered, render, render_upto};
use crate::replace::{absent, occurs_at, replace_all};

verus! {

/// The store after adding each of `texts` in turn, each by a line that holds
/// the verb alone.
pub open spec fn add_each(store: Seq<Seq<char>>, texts: Seq<Seq<char>>) -> Seq<Seq<char>>
    decreases texts.len(),
{
    if texts.len() == 0 {
        store
    } else {
        insert_outcome(add_each(store, texts.drop_last()), seq!["add"@], texts.last()).0
    }
}

/// An add without an index token succeeds and appends its text as the new
/// last paragraph, so the store grows by exactly one.
pub proof fn add_appends(
    tokens: Seq<Seq<char>>,
    answers: Seq<Seq<char>>,
    before: Seq<Seq<char>>,
    after: Seq<Seq<char>>,
    r: Outcome,
)
    requires
        tokens.len() < 2,
        Handler::Add.handled(tokens, answers, before, after, r),
    ensures
        r == Outcome::Ok((seq![], None)),
        after == before.push(answer(answers, 0)),
        after.len() == before.len() + 1,
{
}

/// Adds without an index token, one after another, append their texts at
/// the end in the order of the calls.
pub proof fn adds_keep_call_order(store: Seq<Seq<char>>, texts: Seq<Seq<char>>)
    ensures
        add_each(store, texts) == store + texts,
    decreases texts.len(),
{
    if texts.len() > 0 {
        adds_keep_call_order(store, texts.drop_last());
        assert(store + texts.drop_last() + seq![texts.last()] =~= store + texts);
    }
}

proof fn raw_render_lines(ps: Seq<Seq<char>>, n: int)
    requires
        0 <= n <= ps.len(),
    ensures
        render_upto(ps, FormatMode::Raw, n).len() == n,
        forall|j: int|
            0 <= j < n ==> #[trigger] render_upto(ps, FormatMode::Raw, n)[j] == numbered(j, ps[j]),
    decreases n,
{
    if n > 0 {
        raw_render_lines(ps, n - 1);
        let prev = render_upto(ps, FormatMode::Raw, n - 1);
        assert forall|j: int| 0 <= j < n implies #[trigger] render_upto(ps, FormatMode::Raw, n)[j]
            == numbered(j, ps[j]) by {
            if j < n - 1 {
                assert(render_upto(ps, FormatMode::Raw, n)[j] == prev[j]);
            }
        }
    }
}

/// A raw print shows each paragraph once, on the line of its index.
pub proof fn raw_print_lines(ps: Seq<Seq<char>>)
    ensures
        render(ps, FormatMode::Raw).len() == ps.len(),
        forall|j: int|
            0 <= j < ps.len() ==> #[trigger] render(ps, FormatMode::Raw)[j] == numbered(j, ps[j]),
{
    raw_render_lines(ps, ps.len() as int);
}

/// After a successful delete at index `i`, a raw print shows the paragraphs
/// before `i` on their old lines and each later one a line earlier: the
/// deleted one is no longer shown at its place.
pub proof fn delete_then_print(
    tokens: Seq<Seq<char>>,
    answers: Seq<Seq<char>>,
    before: Seq<Seq<char>>,
    after: Seq<Seq<char>>,
    r: Outcome,
)
    requires
        Handler::Del.handled(tokens, answers, before, after, r),
        r is Ok,
    ensures
        ({
            let i = target(before, tokens)->Ok_0;
            &&& target(before, tokens) is Ok
            &&& after == before.remove(i)
            &&& render(after, FormatMode::Raw).len() == before.len() - 1
            &&& forall|j: int|
                0 <= j < after.len() ==> #[trigger] render(after, FormatMode::Raw)[j] == numbered(
                    j,
                    if j < i {
                        before[j]
                    } else {
                        before[j + 1]
                    },
                )
        }),
{
    raw_print_lines(after);
}

proof fn replace_absent_text(s: Seq<char>, pat: Seq<char>, rep: Seq<char>)
    requires
        absent(s, pat),
    ensures
        replace_all(s, pat, rep) == s,
    decreases s.len(),
{
    if pat.len() == 0 {
        assert(s.subrange(0, 0) =~= pat);
        assert(occurs_at(s, pat, 0));
    } else if s.len() > 0 {
        assert(!occurs_at(s, pat, 0));
        let rest = s.drop_first();
        assert forall|i: int| !#[trigger] occurs_at(rest, pat, i) by {
            if occurs_at(rest, pat, i) {
                assert(s.subrange(i + 1, i + 1 + pat.len()) =~= rest.subrange(i, i + pat.len()));
                assert(occurs_at(s, pat, i + 1));
            }
        }
        replace_absent_text(rest, pat, rep);
        assert(seq![s[0]] + rest =~= s);
    }
}

/// A replace whose search text does not occur in the target paragraph
/// leaves the store as it was.
pub proof fn replace_absent_keeps_text(
    tokens: Seq<Seq<char>>,
    answers: Seq<Seq<char>>,
    before: Seq<Seq<char>>,
    after: Seq<Seq<char>>,
    r: Outcome,
)
    requires
        Handler::Replace.handled(tokens, answers, before, after, r),
        target(before, tokens) is Ok,
        absent(before[target(before, tokens)->Ok_0], answer(answers, 0)),
    ensures
        after == before,
{
    let i = target(before, tokens)->Ok_0;
    if before.len() > 0 {
        replace_absent_text(before[i], answer(answers, 0), answer(answers, 1));
        assert(before.update(i, before[i]) =~= before);
    }
}

/// Replacing a text by itself changes nothing.
pub proof fn replace_by_itself(s: Seq<char>, pat: Seq<char>)
    ensures
        replace_all(s, pat, pat) == s,
    decreases s.len(),
{
    if s.len() > 0 {
        if pat.len() == 0 {
            replace_by_itself(s.drop_first(), pat);
            assert(pat + seq![s[0]] + s.drop_first() =~= s);
        } else if pat.len() <= s.len() && s.subrange(0, pat.len() as int) == pat {
            replace_by_itself(s.subrange(pat.len() as int, s.len() as int), pat);
            assert(pat + s.subrange(pat.len() as int, s.len() as int) =~= s);
        } else {
            replace_by_itself(s.drop_first(), pat);
            assert(seq![s[0]] + s.drop_first() =~= s);
        }
    }
}

/// Adding a paragraph and then replacing, in the last paragraph, a text by
/// itself leaves the added paragraph as it was given.
pub proof fn add_then_identity_replace(
    store: Seq<Seq<char>>,
    add_tokens: Seq<Seq<char>>,
    text: Seq<char>,
    replace_tokens: Seq<Seq<char>>,
    pat: Seq<char>,
)
    requires
        add_tokens.len() < 2,
        replace_tokens.len() < 2,
    ensures
        ({
            let added = insert_outcome(store, add_tokens, text).0;
            let replaced = replace_outcome(added, replace_tokens, pat, pat);
            &&& replaced.1 is Ok
            &&& replaced.0 == store.push(text)
            &&& replaced.0.last() == text
        }),
{
    let added = store.push(text);
    replace_by_itself(text, pat);
    assert(added.update(added.len() - 1, text) =~= added);
}

/// An index token that is not a numeral makes add, dummy, delete and replace
/// fail with `InvalidIndexSyntax` and leave the store alone. Delete and
/// replace test for an empty store first.
pub proof fn bad_index_changes_nothing(
    h: Handler,
    tokens: Seq<Seq<char>>,
    answers: Seq<Seq<char>>,
    before: Seq<Seq<char>>,
    after: Seq<Seq<char>>,
    r: Outcome,
)
    requires
        h == Handler::Add || h == Handler::Dummy || h == Handler::Del || h == Handler::Replace,
        h == Handler::Del || h == Handler::Replace ==> before.len() > 0,
        tokens.len() >= 2,
        !is_numeral(tokens[1]),
        h.handled(tokens, answers, before, after, r),
    ensures
        r == Outcome::Err(CommandError::InvalidIndexSyntax),
        after == before,
{
    assert(parse_usize_spec(tokens[1]) is None);
}

/// On an empty store delete fails with `NothingToDelete` and replace with
/// `NothingToReplace`, whatever the tokens.
pub proof fn empty_store_errors(
    tokens: Seq<Seq<char>>,
    answers: Seq<Seq<char>>,
    after_del: Seq<Seq<char>>,
    r_del: Outcome,
    after_rep: Seq<Seq<char>>,
    r_rep: Outcome,
)
    requires
        Handler::Del.handled(tokens, answers, seq![], after_del, r_del),
        Handler::Replace.handled(tokens, answers, seq![], after_rep, r_rep),
    ensures
        r_del == Outcome::Err(CommandError::NothingToDelete),
        r_rep == Outcome::Err(CommandError::NothingToReplace),
        after_del == Seq::<Seq<char>>::empty(),
        after_rep == Seq::<Seq<char>>::empty(),
{
}

} // verus!
