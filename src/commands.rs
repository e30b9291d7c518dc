//! The command handlers and the dispatch from a verb to its handler.

use vstd::prelude::*;
use vstd::string::*;
use crate::editor::{CommandError, Editor, FormatMode};
use crate::index::{is_frequent, occurrences, word_index};
use crate::input::{UserInput, is_keyword, same_letters};
use crate::numeral::{parse_usize, parse_usize_spec};
use crate::render::{index_line, index_lines, render, render_lines};
use crate::replace::{replace_all, replace_text};

verus! {

/// What a successful command hands back: the lines to show, and the format
/// mode to switch to, if any.
pub struct Effect {
    pub output: Vec<String>,
    pub mode: Option<FormatMode>,
}

/// The model of a command's result: its lines and its new mode, or its error.
pub type Outcome = Result<(Seq<Seq<char>>, Option<FormatMode>), CommandError>;

pub open spec fn outcome_of(r: Result<Effect, CommandError>) -> Outcome {
    match r {
        Ok(e) => Ok((e.output.deep_view(), e.mode)),
        Err(e) => Err(e),
    }
}

/// A command that runs against the paragraph store.
pub trait Command {
    /// The handler can run (a fixed width is positive).
    spec fn ready(&self) -> bool;

    /// What running the handler on `tokens` and the free-form `answers` may
    /// do: take the store from `before` to `after` and give `r`.
    spec fn handled(
        &self,
        tokens: Seq<Seq<char>>,
        answers: Seq<Seq<char>>,
        before: Seq<Seq<char>>,
        after: Seq<Seq<char>>,
        r: Outcome,
    ) -> bool;

    /// Runs the command. On failure the store is left as it was.
    fn handle(&self, user_input: &UserInput, answers: &Vec<String>, editor: &mut Editor) -> (r:
        Result<Effect, CommandError>)
        requires
            self.ready(),
        ensures
            self.handled(user_input@, answers.deep_view(), old(editor)@, final(editor)@, outcome_of(r)),
            r is Err ==> final(editor)@ == old(editor)@,
    ;
}

/// The handler of each verb; printing carries the width it wraps at.
#[derive(Debug, Clone, Copy, PartialEq, Eq, Structural)]
pub enum Handler {
    Add,
    Del,
    Dummy,
    Replace,
    Print,
    PrintFix(usize),
    Index,
    Format,
}

/// The `i`-th free-form answer; a missing one reads as empty.
pub open spec fn answer(answers: Seq<Seq<char>>, i: int) -> Seq<char> {
    if 0 <= i < answers.len() {
        answers[i]
    } else {
        seq![]
    }
}

pub open spec fn dummy_text() -> Seq<char> {
    "this is a dummy paragraph text"@
}

/// Insertion of `text`: at the end, or before the index that the second
/// token gives, which may be the length.
pub open spec fn insert_outcome(store: Seq<Seq<char>>, tokens: Seq<Seq<char>>, text: Seq<char>) -> (
    Seq<Seq<char>>,
    Result<(), CommandError>,
) {
    if tokens.len() < 2 {
        (store.push(text), Ok(()))
    } else {
        match parse_usize_spec(tokens[1]) {
            None => (store, Err(CommandError::InvalidIndexSyntax)),
            Some(i) => if i <= store.len() {
                (store.insert(i as int, text), Ok(()))
            } else {
                (store, Err(CommandError::IndexOutOfBounds))
            },
        }
    }
}

/// The paragraph a command without an index token works on: the last one.
/// With an index token: its value, or an error.
pub open spec fn target(store: Seq<Seq<char>>, tokens: Seq<Seq<char>>) -> Result<int, CommandError> {
    if tokens.len() < 2 {
        Ok(store.len() - 1)
    } else {
        match parse_usize_spec(tokens[1]) {
            None => Err(CommandError::InvalidIndexSyntax),
            Some(i) => if i < store.len() {
                Ok(i as int)
            } else {
                Err(CommandError::IndexOutOfBounds)
            },
        }
    }
}

/// Deletion of the target paragraph.
pub open spec fn delete_outcome(store: Seq<Seq<char>>, tokens: Seq<Seq<char>>) -> (
    Seq<Seq<char>>,
    Result<(), CommandError>,
) {
    if store.len() == 0 {
        (store, Err(CommandError::NothingToDelete))
    } else {
        match target(store, tokens) {
            Ok(i) => (store.remove(i), Ok(())),
            Err(e) => (store, Err(e)),
        }
    }
}

/// Replacement of every `search` by `rep` in the target paragraph.
pub open spec fn replace_outcome(
    store: Seq<Seq<char>>,
    tokens: Seq<Seq<char>>,
    search: Seq<char>,
    rep: Seq<char>,
) -> (Seq<Seq<char>>, Result<(), CommandError>) {
    if store.len() == 0 {
        (store, Err(CommandError::NothingToReplace))
    } else {
        match target(store, tokens) {
            Ok(i) => (store.update(i, replace_all(store[i], search, rep)), Ok(())),
            Err(e) => (store, Err(e)),
        }
    }
}

/// The mode that `format raw` or `format fix <width>` asks for.
pub open spec fn format_outcome(tokens: Seq<Seq<char>>) -> Result<FormatMode, CommandError> {
    if tokens.len() == 2 && same_letters(tokens[1], "raw"@) {
        Ok(FormatMode::Raw)
    } else if tokens.len() >= 3 && same_letters(tokens[1], "fix"@) {
        match parse_usize_spec(tokens[2]) {
            Some(w) => if w > 0 {
                Ok(FormatMode::Fix(w))
            } else {
                Err(CommandError::InvalidWidthSyntax)
            },
            None => Err(CommandError::InvalidWidthSyntax),
        }
    } else {
        Err(CommandError::InvalidFormatMode)
    }
}

/// `ws` lists, once each, the words that occur in more than three paragraphs.
pub open spec fn frequent_words(store: Seq<Seq<char>>, ws: Seq<Seq<char>>) -> bool {
    &&& forall|a: int| 0 <= a < ws.len() ==> is_frequent(store, #[trigger] ws[a])
    &&& forall|a: int, b: int| 0 <= a < b < ws.len() ==> ws[a] != ws[b]
    &&& forall|w: Seq<char>| is_frequent(store, w) ==> ws.contains(w)
}

/// `lines` is an index report of `store`: one line per frequent word, with
/// the paragraphs that hold it.
pub open spec fn index_report(store: Seq<Seq<char>>, lines: Seq<Seq<char>>) -> bool {
    exists|ws: Seq<Seq<char>>|
        frequent_words(store, ws) && lines.len() == ws.len() && forall|a: int|
            0 <= a < ws.len() ==> #[trigger] lines[a] == index_line(ws[a], occurrences(store, ws[a]))
}

/// A change of the store with no lines to show.
pub open spec fn silent(step: (Seq<Seq<char>>, Result<(), CommandError>)) -> (Seq<Seq<char>>, Outcome) {
    match step.1 {
        Ok(_) => (step.0, Ok((seq![], None))),
        Err(e) => (step.0, Err(e)),
    }
}

/// The labels of the free-form texts a handler asks for, given the store it
/// will run on, in the order it reads them.
pub open spec fn prompt_labels(h: Handler, store: Seq<Seq<char>>) -> Seq<Seq<char>> {
    match h {
        Handler::Add => seq!["text to insert"@],
        Handler::Replace => if store.len() == 0 {
            seq![]
        } else {
            seq!["text to search"@, "text to replace"@]
        },
        _ => seq![],
    }
}

impl Command for Handler {
    open spec fn ready(&self) -> bool {
        match *self {
            Handler::PrintFix(w) => w > 0,
            _ => true,
        }
    }

    open spec fn handled(
        &self,
        tokens: Seq<Seq<char>>,
        answers: Seq<Seq<char>>,
        before: Seq<Seq<char>>,
        after: Seq<Seq<char>>,
        r: Outcome,
    ) -> bool {
        match *self {
            Handler::Add => (after, r) == silent(insert_outcome(before, tokens, answer(answers, 0))),
            Handler::Dummy => (after, r) == silent(insert_outcome(before, tokens, dummy_text())),
            Handler::Del => (after, r) == silent(delete_outcome(before, tokens)),
            Handler::Replace => (after, r) == silent(
                replace_outcome(before, tokens, answer(answers, 0), answer(answers, 1)),
            ),
            Handler::Print => after == before && r == Outcome::Ok(
                (render(before, FormatMode::Raw), None),
            ),
            Handler::PrintFix(w) => after == before && r == Outcome::Ok(
                (render(before, FormatMode::Fix(w)), None),
            ),
            Handler::Index => after == before && (r matches Ok((lines, None)) && index_report(
                before,
                lines,
            )),
            Handler::Format => after == before && match format_outcome(tokens) {
                Ok(m) => r == Outcome::Ok((seq![], Some(m))),
                Err(e) => r == Outcome::Err(e),
            },
        }
    }

    fn handle(&self, user_input: &UserInput, answers: &Vec<String>, editor: &mut Editor) -> (r:
        Result<Effect, CommandError>) {
        let tokens = user_input.tokens();
        match *self {
            Handler::Add => {
                let text = if answers.len() > 0 {
                    answers[0].clone()
                } else {
                    String::new()
                };
                proof {
                    assert(text@ == answer(answers.deep_view(), 0));
                }
                quiet(insert(tokens, text, editor))
            },
            Handler::Dummy => {
                let text = "this is a dummy paragraph text".to_owned();
                quiet(insert(tokens, text, editor))
            },
            Handler::Del => quiet(delete(tokens, editor)),
            Handler::Replace => {
                let empty = String::new();
                let search = if answers.len() > 0 {
                    &answers[0]
                } else {
                    &empty
                };
                let rep = if answers.len() > 1 {
                    &answers[1]
                } else {
                    &empty
                };
                proof {
                    assert(search@ == answer(answers.deep_view(), 0));
                    assert(rep@ == answer(answers.deep_view(), 1));
                }
                quiet(replace(tokens, search, rep, editor))
            },
            Handler::Print => Ok(
                Effect { output: render_lines(editor.paragraphs(), FormatMode::Raw), mode: None },
            ),
            Handler::PrintFix(w) => Ok(
                Effect { output: render_lines(editor.paragraphs(), FormatMode::Fix(w)), mode: None },
            ),
            Handler::Index => {
                let entries = word_index(editor.paragraphs());
                let lines = index_lines(&entries);
                let ghost store = editor@;
                let ghost ws = Seq::new(entries.len() as nat, |a: int| entries[a].word@);
                proof {
                    assert forall|w: Seq<char>| is_frequent(store, w) implies ws.contains(w) by {
                        let a = choose|a: int| 0 <= a < entries.len() && (#[trigger] entries[a]).word@ == w;
                        assert(ws[a] == w);
                    }
                    assert forall|a: int| 0 <= a < ws.len() implies #[trigger] lines.deep_view()[a]
                        == index_line(ws[a], occurrences(store, ws[a])) by {
                        assert(lines.deep_view()[a] == lines[a]@);
                    }
                    assert(frequent_words(store, ws));
                    assert(lines.deep_view().len() == ws.len());
                    assert(index_report(store, lines.deep_view()));
                }
                Ok(Effect { output: lines, mode: None })
            },
            Handler::Format => match format_mode(tokens) {
                Ok(m) => {
                    let e = Effect { output: Vec::new(), mode: Some(m) };
                    assert(e.output.deep_view() =~= Seq::<Seq<char>>::empty());
                    Ok(e)
                },
                Err(e) => Err(e),
            },
        }
    }
}


fn quiet(r: Result<(), CommandError>) -> (o: Result<Effect, CommandError>)
    ensures
        match r {
            Ok(_) => o matches Ok(e) && e.output.deep_view() == Seq::<Seq<char>>::empty() && e.mode
                is None,
            Err(e) => o == Err::<Effect, CommandError>(e),
        },
{
    match r {
        Ok(_) => {
            let e = Effect { output: Vec::new(), mode: None };
            assert(e.output.deep_view() =~= Seq::<Seq<char>>::empty());
            Ok(e)
        },
        Err(e) => Err(e),
    }
}

/// Reads the index token, if there is one.
fn index_token(tokens: &Vec<String>) -> (r: Option<Option<usize>>)
    ensures
        tokens.len() < 2 ==> r is None,
        tokens.len() >= 2 ==> r == Some(parse_usize_spec(tokens.deep_view()[1])),
{
    if tokens.len() < 2 {
        None
    } else {
        Some(parse_usize(tokens[1].as_str()))
    }
}

fn insert(tokens: &Vec<String>, text: String, editor: &mut Editor) -> (r: Result<(), CommandError>)
    ensures
        (final(editor)@, r) == insert_outcome(old(editor)@, tokens.deep_view(), text@),
{
    match index_token(tokens) {
        None => {
            editor.append_text(text);
            Ok(())
        },
        Some(None) => Err(CommandError::InvalidIndexSyntax),
        Some(Some(i)) => editor.append_text_at(i, text),
    }
}

fn target_of(tokens: &Vec<String>, editor: &Editor) -> (r: Result<usize, CommandError>)
    requires
        editor@.len() > 0,
    ensures
        match r {
            Ok(i) => target(editor@, tokens.deep_view()) == Ok::<int, CommandError>(i as int) && i
                < editor@.len(),
            Err(e) => target(editor@, tokens.deep_view()) == Err::<int, CommandError>(e),
        },
{
    match index_token(tokens) {
        None => Ok(editor.len() - 1),
        Some(None) => Err(CommandError::InvalidIndexSyntax),
        Some(Some(i)) => {
            if i < editor.len() {
                Ok(i)
            } else {
                Err(CommandError::IndexOutOfBounds)
            }
        },
    }
}

fn delete(tokens: &Vec<String>, editor: &mut Editor) -> (r: Result<(), CommandError>)
    ensures
        (final(editor)@, r) == delete_outcome(old(editor)@, tokens.deep_view()),
{
    if editor.is_empty() {
        return Err(CommandError::NothingToDelete);
    }
    let i = match target_of(tokens, editor) {
        Ok(i) => i,
        Err(e) => return Err(e),
    };
    editor.delete_paragraph(i)
}

fn replace(tokens: &Vec<String>, search: &String, rep: &String, editor: &mut Editor) -> (r: Result<
    (),
    CommandError,
>)
    ensures
        (final(editor)@, r) == replace_outcome(old(editor)@, tokens.deep_view(), search@, rep@),
{
    if editor.is_empty() {
        return Err(CommandError::NothingToReplace);
    }
    let i = match target_of(tokens, editor) {
        Ok(i) => i,
        Err(e) => return Err(e),
    };
    let new_paragraph = match editor.get(i) {
        Some(p) => replace_text(p.as_str(), search.as_str(), rep.as_str()),
        None => String::new(),
    };
    editor.replace_paragraph(i, new_paragraph)
}

/// The mode that a format command line asks for.
pub fn format_mode(tokens: &Vec<String>) -> (r: Result<FormatMode, CommandError>)
    ensures
        r == format_outcome(tokens.deep_view()),
{
    if tokens.len() == 2 && is_keyword(tokens[1].as_str(), "raw") {
        Ok(FormatMode::Raw)
    } else if tokens.len() >= 3 && is_keyword(tokens[1].as_str(), "fix") {
        match parse_usize(tokens[2].as_str()) {
            Some(w) => if w > 0 {
                Ok(FormatMode::Fix(w))
            } else {
                Err(CommandError::InvalidWidthSyntax)
            },
            None => Err(CommandError::InvalidWidthSyntax),
        }
    } else {
        Err(CommandError::InvalidFormatMode)
    }
}

} // verus!
