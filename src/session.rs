//! Dispatch from a command line to its handler, and the editing session
//! that holds the store and the format mode between commands.

use vstd::prelude::*;
use vstd::string::*;
use crate::commands::{Command, Handler, Outcome, prompt_labels};
use crate::editor::{CommandError, Editor, FormatMode};
use crate::input::{UserInput, is_keyword, same_letters};

verus! {

/// The handler that a verb names under the current mode; printing depends
/// on the mode.
pub open spec fn handler_for(verb: Seq<char>, mode: FormatMode) -> Option<Handler> {
    if same_letters(verb, "add"@) {
        Some(Handler::Add)
    } else if same_letters(verb, "del"@) {
        Some(Handler::Del)
    } else if same_letters(verb, "dummy"@) {
        Some(Handler::Dummy)
    } else if same_letters(verb, "replace"@) {
        Some(Handler::Replace)
    } else if same_letters(verb, "print"@) {
        match mode {
            FormatMode::Raw => Some(Handler::Print),
            FormatMode::Fix(w) => Some(Handler::PrintFix(w)),
        }
    } else if same_letters(verb, "index"@) {
        Some(Handler::Index)
    } else if same_letters(verb, "format"@) {
        Some(Handler::Format)
    } else {
        None
    }
}

/// The handler of a command line, if its first token names one.
pub open spec fn resolve(tokens: Seq<Seq<char>>, mode: FormatMode) -> Option<Handler> {
    if tokens.len() == 0 {
        None
    } else {
        handler_for(tokens[0], mode)
    }
}

/// Picks the handler for the verb of `user_input`, ignoring ASCII case.
pub fn get_command_handler(user_input: &UserInput, format_mode: &FormatMode) -> (r: Result<
    Handler,
    CommandError,
>)
    ensures
        match resolve(user_input@, *format_mode) {
            Some(h) => r == Ok::<Handler, CommandError>(h),
            None => (r matches Err(CommandError::UnknownCommand(v)) && v@ == (if user_input@.len()
                == 0 {
                Seq::<char>::empty()
            } else {
                user_input@[0]
            })),
        },
{
    let tokens = user_input.tokens();
    if tokens.len() == 0 {
        return Err(CommandError::UnknownCommand(String::new()));
    }
    let verb = tokens[0].as_str();
    if is_keyword(verb, "add") {
        Ok(Handler::Add)
    } else if is_keyword(verb, "del") {
        Ok(Handler::Del)
    } else if is_keyword(verb, "dummy") {
        Ok(Handler::Dummy)
    } else if is_keyword(verb, "replace") {
        Ok(Handler::Replace)
    } else if is_keyword(verb, "print") {
        match *format_mode {
            FormatMode::Raw => Ok(Handler::Print),
            FormatMode::Fix(w) => Ok(Handler::PrintFix(w)),
        }
    } else if is_keyword(verb, "index") {
        Ok(Handler::Index)
    } else if is_keyword(verb, "format") {
        Ok(Handler::Format)
    } else {
        Err(CommandError::UnknownCommand(tokens[0].clone()))
    }
}

impl Handler {
    /// The labels of the free-form texts to ask for before running on
    /// `editor`, in the order the handler reads them.
    pub fn prompts(&self, editor: &Editor) -> (r: Vec<String>)
        ensures
            r.deep_view() == prompt_labels(*self, editor@),
    {
        let mut r: Vec<String> = Vec::new();
        match *self {
            Handler::Add => {
                r.push("text to insert".to_owned());
            },
            Handler::Replace => {
                if !editor.is_empty() {
                    r.push("text to search".to_owned());
                    r.push("text to replace".to_owned());
                }
            },
            _ => {},
        }
        assert(r.deep_view() =~= prompt_labels(*self, editor@));
        r
    }
}

/// The mode after a command that asked for `m`.
pub open spec fn next_mode(mode: FormatMode, m: Option<FormatMode>) -> FormatMode {
    match m {
        Some(x) => x,
        None => mode,
    }
}

/// The store and the format mode of one editing session.
pub struct Session {
    editor: Editor,
    mode: FormatMode,
}

impl Session {
    pub closed spec fn store(&self) -> Seq<Seq<char>> {
        self.editor@
    }

    pub closed spec fn format(&self) -> FormatMode {
        self.mode
    }

    pub open spec fn wf(&self) -> bool {
        self.format().wf()
    }

    /// An empty store, printed raw.
    pub fn new() -> (r: Session)
        ensures
            r.store() == Seq::<Seq<char>>::empty(),
            r.format() == FormatMode::Raw,
            r.wf(),
    {
        Session { editor: Editor::new(), mode: FormatMode::Raw }
    }

    pub fn editor(&self) -> (r: &Editor)
        ensures
            r@ == self.store(),
    {
        &self.editor
    }

    pub fn mode(&self) -> (r: FormatMode)
        ensures
            r == self.format(),
    {
        self.mode
    }

    /// The labels of the free-form texts that the command line needs.
    pub fn prompts(&self, user_input: &UserInput) -> (r: Vec<String>)
        ensures
            r.deep_view() == match resolve(user_input@, self.format()) {
                Some(h) => prompt_labels(h, self.store()),
                None => Seq::<Seq<char>>::empty(),
            },
    {
        match get_command_handler(user_input, &self.mode) {
            Ok(h) => h.prompts(&self.editor),
            Err(_) => {
                let r: Vec<String> = Vec::new();
                assert(r.deep_view() =~= Seq::<Seq<char>>::empty());
                r
            },
        }
    }

    /// Runs one command line, with the free-form texts it asked for, and
    /// applies the mode it asks for. Gives the lines to show.
    pub fn execute(&mut self, user_input: &UserInput, answers: &Vec<String>) -> (r: Result<
        Vec<String>,
        CommandError,
    >)
        requires
            old(self).wf(),
        ensures
            final(self).wf(),
            match resolve(user_input@, old(self).format()) {
                None => r is Err && r->Err_0 is UnknownCommand && final(self).store() == old(
                    self,
                ).store() && final(self).format() == old(self).format(),
                Some(h) => match r {
                    Ok(lines) => exists|m: Option<FormatMode>|
                        h.handled(
                            user_input@,
                            answers.deep_view(),
                            old(self).store(),
                            final(self).store(),
                            Outcome::Ok((lines.deep_view(), m)),
                        ) && final(self).format() == next_mode(old(self).format(), m),
                    Err(e) => h.handled(
                        user_input@,
                        answers.deep_view(),
                        old(self).store(),
                        final(self).store(),
                        Outcome::Err(e),
                    ) && final(self).format() == old(self).format(),
                },
            },
    {
        let h = match get_command_handler(user_input, &self.mode) {
            Ok(h) => h,
            Err(e) => return Err(e),
        };
        match h.handle(user_input, answers, &mut self.editor) {
            Ok(effect) => {
                let ghost m = effect.mode;
                assert(h.handled(
                    user_input@,
                    answers.deep_view(),
                    old(self).store(),
                    self.store(),
                    Outcome::Ok((effect.output.deep_view(), m)),
                ));
                if let Some(next) = effect.mode {
                    self.mode = next;
                }
                assert(self.format() == next_mode(old(self).format(), m));
                assert(h.handled(
                    user_input@,
                    answers.deep_view(),
                    old(self).store(),
                    self.store(),
                    Outcome::Ok((effect.output.deep_view(), m)),
                ));
                Ok(effect.output)
            },
            Err(e) => Err(e),
        }
    }
}

} // verus!
