//! Editing one line of text that the user types.

use vstd::prelude::*;
use vstd::string::StrSliceExecFns;
use vstd::string::StringExecFns;

verus! {

/// What a key means to a line that is being typed.
#[derive(PartialEq, Eq, Structural, Copy, Clone, Debug)]
pub enum Key {
    /// Give up the line.
    Cancel,
    /// The line is complete.
    Enter,
    /// Take out the character before the cursor.
    Backspace,
    /// Take out the character under the cursor.
    Delete,
    Left,
    Right,
    Character(char),
    Other,
}

/// What the terminal has to repeat after a key. Columns count the
/// characters of the text from its start.
#[derive(PartialEq, Eq, Structural, Copy, Clone, Debug)]
pub enum Echo {
    Nothing,
    /// Put the cursor on a column.
    MoveTo(usize),
    /// Put the cursor on a column and take out the character there.
    DeleteAt(usize),
    /// Take out the character under the cursor.
    DeleteHere,
    /// Put a character in under the cursor, and the cursor on a column.
    Insert(char, usize),
}

/// How a key leaves the line: still being typed, or done with a result,
/// which is empty where the user gave up.
#[derive(Debug, PartialEq, Eq)]
pub enum Progress {
    Editing(Echo),
    Done(String),
}

/// `String::push`: the character is added at the end.
#[verifier::external_body]
fn push_char(text: &mut String, c: char)
    ensures
        final(text)@ == old(text)@.push(c),
{
    text.push(c)
}

/// A line of text with a cursor on one of its characters or behind the
/// last.
pub struct LineEditor {
    inputs: String,
    cursor: usize,
}

impl LineEditor {
    /// What has been typed.
    pub closed spec fn text(&self) -> Seq<char> {
        self.inputs@
    }

    /// The column of the cursor.
    pub closed spec fn column(&self) -> int {
        self.cursor as int
    }

    /// The cursor is on the text or just behind it.
    pub open spec fn wf(&self) -> bool {
        0 <= self.column() <= self.text().len()
    }

    /// An empty line.
    pub fn new() -> (r: LineEditor)
        ensures
            r.wf(),
            r.text() == Seq::<char>::empty(),
            r.column() == 0,
    {
        LineEditor { inputs: String::new(), cursor: 0 }
    }

    /// Whether `key` leaves `before` as this line, with `r` to show for it.
    ///
    /// * Backspace takes out the character before the cursor, delete the one
    ///   under it, where there is one.
    /// * Left and right move the cursor within the text.
    /// * A character is added at the end of the text, wherever the cursor
    ///   is; the cursor moves one column to the right.
    /// * Enter ends with the text, cancel with an empty result.
    pub open spec fn follows(&self, before: &LineEditor, key: Key, r: Progress) -> bool {
        let text = before.text();
        let at = before.column();
        match key {
            Key::Cancel => {
                &&& *self == *before
                &&& r matches Progress::Done(s)
                &&& s@ == Seq::<char>::empty()
            },
            Key::Enter => {
                &&& *self == *before
                &&& r matches Progress::Done(s)
                &&& s@ == text
            },
            Key::Backspace => if at > 0 {
                &&& self.text() == text.remove(at - 1)
                &&& self.column() == at - 1
                &&& r == Progress::Editing(Echo::DeleteAt((at - 1) as usize))
            } else {
                *self == *before && r == Progress::Editing(Echo::Nothing)
            },
            Key::Delete => if at < text.len() {
                &&& self.text() == text.remove(at)
                &&& self.column() == at
                &&& r == Progress::Editing(Echo::DeleteHere)
            } else {
                *self == *before && r == Progress::Editing(Echo::Nothing)
            },
            Key::Left => if at > 0 {
                &&& self.text() == text
                &&& self.column() == at - 1
                &&& r == Progress::Editing(Echo::MoveTo((at - 1) as usize))
            } else {
                *self == *before && r == Progress::Editing(Echo::Nothing)
            },
            Key::Right => if at < text.len() {
                &&& self.text() == text
                &&& self.column() == at + 1
                &&& r == Progress::Editing(Echo::MoveTo((at + 1) as usize))
            } else {
                *self == *before && r == Progress::Editing(Echo::Nothing)
            },
            Key::Character(c) => if text.len() < usize::MAX {
                &&& self.text() == text.push(c)
                &&& self.column() == at + 1
                &&& r == Progress::Editing(Echo::Insert(c, (at + 1) as usize))
            } else {
                *self == *before && r == Progress::Editing(Echo::Nothing)
            },
            Key::Other => *self == *before && r == Progress::Editing(Echo::Nothing),
        }
    }

    fn remove_at(&mut self, index: usize)
        requires
            old(self).wf(),
            index < old(self).text().len(),
        ensures
            final(self).text() == old(self).text().remove(index as int),
            final(self).column() == old(self).column(),
    {
        let len: usize = self.inputs.as_str().unicode_len();
        let head = self.inputs.as_str().substring_char(0, index);
        let tail = self.inputs.as_str().substring_char(index + 1, len);
        let mut text = String::from_str(head);
        text.append(tail);
        assert(text@ =~= old(self).text().remove(index as int));
        self.inputs = text;
    }

    /// Acts on a key.
    pub fn apply(&mut self, key: Key) -> (r: Progress)
        requires
            old(self).wf(),
        ensures
            final(self).wf(),
            final(self).follows(old(self), key, r),
    {
        let len: usize = self.inputs.as_str().unicode_len();
        match key {
            Key::Cancel => Progress::Done(String::new()),
            Key::Enter => Progress::Done(self.inputs.clone()),
            Key::Backspace => {
                if self.cursor > 0 {
                    self.cursor = self.cursor - 1;
                    self.remove_at(self.cursor);
                    Progress::Editing(Echo::DeleteAt(self.cursor))
                } else {
                    Progress::Editing(Echo::Nothing)
                }
            },
            Key::Delete => {
                if self.cursor < len {
                    self.remove_at(self.cursor);
                    Progress::Editing(Echo::DeleteHere)
                } else {
                    Progress::Editing(Echo::Nothing)
                }
            },
            Key::Left => {
                if self.cursor > 0 {
                    self.cursor = self.cursor - 1;
                    Progress::Editing(Echo::MoveTo(self.cursor))
                } else {
                    Progress::Editing(Echo::Nothing)
                }
            },
            Key::Right => {
                if self.cursor < len {
                    self.cursor = self.cursor + 1;
                    Progress::Editing(Echo::MoveTo(self.cursor))
                } else {
                    Progress::Editing(Echo::Nothing)
                }
            },
            Key::Character(c) => {
                if len < usize::MAX {
                    push_char(&mut self.inputs, c);
                    self.cursor = self.cursor + 1;
                    Progress::Editing(Echo::Insert(c, self.cursor))
                } else {
                    Progress::Editing(Echo::Nothing)
                }
            },
            Key::Other => Progress::Editing(Echo::Nothing),
        }
    }
}

} // verus!
