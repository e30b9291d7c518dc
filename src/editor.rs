//! The paragraph store, the format mode and the errors that commands report.

use vstd::prelude::*;

verus! {

/// How the print command renders paragraphs.
#[derive(Debug, Clone, Copy, PartialEq, Eq, Structural)]
pub enum FormatMode {
    /// Paragraphs verbatim.
    Raw,
    /// Paragraphs word-wrapped at a column width.
    Fix(usize),
}

impl FormatMode {
    /// A fixed width is at least one column.
    pub open spec fn wf(self) -> bool {
        match self {
            FormatMode::Raw => true,
            FormatMode::Fix(w) => w > 0,
        }
    }
}

/// What a command can fail with.
#[derive(Debug, Clone, PartialEq, Eq)]
pub enum CommandError {
    /// The verb names no command; it carries the verb as given.
    UnknownCommand(String),
    /// An index token is not a non-negative integer.
    InvalidIndexSyntax,
    /// A width token is not a positive integer.
    InvalidWidthSyntax,
    /// The format command names neither `raw` nor `fix <width>`.
    InvalidFormatMode,
    /// An index names no paragraph (or no insertion point).
    IndexOutOfBounds,
    /// Delete on an empty store.
    NothingToDelete,
    /// Replace on an empty store.
    NothingToReplace,
}

impl CommandError {
    /// The message shown to the user.
    pub fn message(&self) -> String {
        match self {
            CommandError::UnknownCommand(_) => "command invalid".to_owned(),
            CommandError::InvalidIndexSyntax => "invalid index value given".to_owned(),
            CommandError::InvalidWidthSyntax => "invalid line width value given".to_owned(),
            CommandError::InvalidFormatMode => "no valid formating mode given".to_owned(),
            CommandError::IndexOutOfBounds => "given Paragraph does not exist".to_owned(),
            CommandError::NothingToDelete => "nothing to delete".to_owned(),
            CommandError::NothingToReplace => "nothing to replace".to_owned(),
        }
    }
}

/// An ordered store of paragraphs, indexed from 0 without gaps.
#[derive(Debug)]
pub struct Editor {
    text: Vec<String>,
}

impl View for Editor {
    type V = Seq<Seq<char>>;

    closed spec fn view(&self) -> Seq<Seq<char>> {
        self.text.deep_view()
    }
}

impl Editor {
    /// An empty store.
    pub fn new() -> (r: Editor)
        ensures
            r@ == Seq::<Seq<char>>::empty(),
    {
        let r = Editor { text: Vec::new() };
        assert(r@ =~= Seq::<Seq<char>>::empty());
        r
    }

    /// The paragraphs, in order.
    pub fn paragraphs(&self) -> (r: &Vec<String>)
        ensures
            r.deep_view() == self@,
    {
        &self.text
    }

    /// The number of paragraphs.
    pub fn len(&self) -> (r: usize)
        ensures
            r == self@.len(),
    {
        self.text.len()
    }

    pub fn is_empty(&self) -> (r: bool)
        ensures
            r == (self@.len() == 0),
    {
        self.text.len() == 0
    }

    /// The paragraph at `index`, or nothing where there is none.
    pub fn get(&self, index: usize) -> (r: Option<&String>)
        ensures
            match r {
                Some(p) => index < self@.len() && p@ == self@[index as int],
                None => index >= self@.len(),
            },
    {
        if index < self.text.len() {
            Some(&self.text[index])
        } else {
            None
        }
    }

    /// Fails where `index` names no paragraph.
    pub fn index_out_of_bounds_check(&self, index: usize) -> (r: Result<(), CommandError>)
        ensures
            r == (if index < self@.len() {
                Ok::<(), CommandError>(())
            } else {
                Err(CommandError::IndexOutOfBounds)
            }),
    {
        if self.text.len() <= index {
            Err(CommandError::IndexOutOfBounds)
        } else {
            Ok(())
        }
    }

    /// Appends a paragraph at the end.
    pub fn append_text(&mut self, paragraph: String)
        ensures
            final(self)@ == old(self)@.push(paragraph@),
    {
        self.text.push(paragraph);
        assert(self@ =~= old(self)@.push(paragraph@));
    }

    /// Inserts a paragraph before position `index`; `index` may be the
    /// length, which appends. The store is unchanged on failure.
    pub fn append_text_at(&mut self, index: usize, paragraph: String) -> (r: Result<
        (),
        CommandError,
    >)
        ensures
            index <= old(self)@.len() ==> r == Ok::<(), CommandError>(()) && final(self)@ == old(self)@.insert(
                index as int,
                paragraph@,
            ),
            index > old(self)@.len() ==> r == Err::<(), CommandError>(
                CommandError::IndexOutOfBounds,
            ) && final(self)@ == old(self)@,
    {
        if index > self.text.len() {
            return Err(CommandError::IndexOutOfBounds);
        }
        self.text.insert(index, paragraph);
        assert(self@ =~= old(self)@.insert(index as int, paragraph@));
        Ok(())
    }

    /// Removes the paragraph at `index`; later ones move down by one.
    pub fn delete_paragraph(&mut self, index: usize) -> (r: Result<(), CommandError>)
        ensures
            index < old(self)@.len() ==> r == Ok::<(), CommandError>(()) && final(self)@ == old(self)@.remove(
                index as int,
            ),
            index >= old(self)@.len() ==> r == Err::<(), CommandError>(
                CommandError::IndexOutOfBounds,
            ) && final(self)@ == old(self)@,
    {
        self.index_out_of_bounds_check(index)?;
        self.text.remove(index);
        assert(self@ =~= old(self)@.remove(index as int));
        Ok(())
    }

    /// Overwrites the paragraph at `index`.
    pub fn replace_paragraph(&mut self, index: usize, new_paragraph: String) -> (r: Result<
        (),
        CommandError,
    >)
        ensures
            index < old(self)@.len() ==> r == Ok::<(), CommandError>(()) && final(self)@ == old(self)@.update(
                index as int,
                new_paragraph@,
            ),
            index >= old(self)@.len() ==> r == Err::<(), CommandError>(
                CommandError::IndexOutOfBounds,
            ) && final(self)@ == old(self)@,
    {
        self.index_out_of_bounds_check(index)?;
        self.text.set(index, new_paragraph);
        assert(self@ =~= old(self)@.update(index as int, new_paragraph@));
        Ok(())
    }
}

} // verus!
