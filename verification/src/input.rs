//! A one-line text field: the characters typed so far and where the caret
//! stands among them.
use vstd::prelude::*;
use crate::keys::{Key, KeyCode};
use crate::text::{chars_of, string_of};

verus! {

/// What a key did to a field.
#[derive(Debug, Clone, Copy, PartialEq, Eq, Structural)]
pub enum Edit {
    /// `enter`: the text is offered as it stands.
    Submit,
    /// `esc`: the field is given up on.
    Cancel,
    /// The key edited the text or moved the caret.
    Consumed,
    /// The field has no use for the key.
    Ignored,
}

/// The text and caret after `key`, and what the key did. The caret is a
/// count of characters, never past the end of the text.
pub open spec fn edit_step(text: Seq<char>, cursor: int, key: Key) -> (Seq<char>, int, Edit) {
    let ctrl = key.mods.ctrl;
    match key.code {
        KeyCode::Enter => (text, cursor, Edit::Submit),
        KeyCode::Esc => (text, cursor, Edit::Cancel),
        KeyCode::Char(c) => {
            if ctrl {
                if c == 'u' {
                    (text.skip(cursor), 0, Edit::Consumed)
                } else if c == 'k' {
                    (text.take(cursor), cursor, Edit::Consumed)
                } else if c == 'a' {
                    (text, 0, Edit::Consumed)
                } else if c == 'e' {
                    (text, text.len() as int, Edit::Consumed)
                } else {
                    (text, cursor, Edit::Ignored)
                }
            } else if key.mods.alt {
                (text, cursor, Edit::Ignored)
            } else {
                (text.take(cursor).push(c) + text.skip(cursor), cursor + 1, Edit::Consumed)
            }
        },
        KeyCode::Backspace => {
            if cursor > 0 {
                (text.take(cursor - 1) + text.skip(cursor), cursor - 1, Edit::Consumed)
            } else {
                (text, cursor, Edit::Consumed)
            }
        },
        KeyCode::Delete => {
            if cursor < text.len() {
                (text.take(cursor) + text.skip(cursor + 1), cursor, Edit::Consumed)
            } else {
                (text, cursor, Edit::Consumed)
            }
        },
        KeyCode::Left => (text, if cursor > 0 { cursor - 1 } else { 0 }, Edit::Consumed),
        KeyCode::Right => (text, if cursor < text.len() { cursor + 1 } else { cursor }, Edit::Consumed),
        KeyCode::Home => (text, 0, Edit::Consumed),
        KeyCode::End => (text, text.len() as int, Edit::Consumed),
        _ => (text, cursor, Edit::Ignored),
    }
}

/// A single-line text field.
#[derive(Debug)]
pub struct TextInput {
    chars: Vec<char>,
    caret: usize,
}

impl TextInput {
    /// The characters in the field.
    pub closed spec fn text_view(&self) -> Seq<char> {
        self.chars@
    }

    /// Where the caret stands, as a count of characters before it.
    pub closed spec fn caret_view(&self) -> int {
        self.caret as int
    }

    /// The caret never stands past the end of the text.
    pub closed spec fn wf(&self) -> bool {
        self.caret <= self.chars@.len()
    }

    /// An empty field.
    pub fn single() -> (t: TextInput)
        ensures
            t.wf(),
            t.text_view() == Seq::<char>::empty(),
            t.caret_view() == 0,
    {
        TextInput { chars: Vec::new(), caret: 0 }
    }

    /// The field holding `text`, the caret at its end.
    pub fn with_text(self, text: &str) -> (t: TextInput)
        ensures
            t.wf(),
            t.text_view() == text@,
            t.caret_view() == text@.len(),
    {
        let chars = chars_of(text);
        let caret = chars.len();
        TextInput { chars, caret }
    }

    /// Put the caret at `at`, or at the end when `at` is past it.
    pub fn set_cursor(&mut self, at: usize)
        requires
            old(self).wf(),
        ensures
            final(self).wf(),
            final(self).text_view() == old(self).text_view(),
            final(self).caret_view() == (if at <= old(self).text_view().len() { at as int } else { old(self).text_view().len() as int }),
    {
        self.caret = if at <= self.chars.len() { at } else { self.chars.len() };
    }

    /// The text in the field.
    pub fn text(&self) -> (s: String)
        ensures
            s@ == self.text_view(),
    {
        string_of(&self.chars)
    }

    /// The characters in the field.
    pub fn chars(&self) -> (s: &[char])
        ensures
            s@ == self.text_view(),
    {
        self.chars.as_slice()
    }

    /// Where the caret stands.
    pub fn cursor(&self) -> (n: usize)
        ensures
            n == self.caret_view(),
    {
        self.caret
    }

    /// Empty the field.
    pub fn clear(&mut self)
        ensures
            final(self).wf(),
            final(self).text_view() == Seq::<char>::empty(),
            final(self).caret_view() == 0,
    {
        self.chars = Vec::new();
        self.caret = 0;
    }

    /// Apply one key.
    pub fn handle(&mut self, key: Key) -> (e: Edit)
        requires
            old(self).wf(),
        ensures
            final(self).wf(),
            (final(self).text_view(), final(self).caret_view(), e)
                == edit_step(old(self).text_view(), old(self).caret_view(), key),
    {
        let n = self.chars.len();
        let c0 = self.caret;
        match key.code {
            KeyCode::Enter => Edit::Submit,
            KeyCode::Esc => Edit::Cancel,
            KeyCode::Char(c) => {
                if key.mods.ctrl {
                    if c == 'u' {
                        self.chars = crate::text::copy_range(&self.chars, c0, n);
                        self.caret = 0;
                        Edit::Consumed
                    } else if c == 'k' {
                        self.chars.truncate(c0);
                        Edit::Consumed
                    } else if c == 'a' {
                        self.caret = 0;
                        Edit::Consumed
                    } else if c == 'e' {
                        self.caret = n;
                        Edit::Consumed
                    } else {
                        Edit::Ignored
                    }
                } else if key.mods.alt {
                    Edit::Ignored
                } else {
                    self.chars.insert(c0, c);
                    assert(old(self).chars@.insert(c0 as int, c) =~= old(self).chars@.take(c0 as int).push(c) + old(self).chars@.skip(c0 as int));
                    let len = self.chars.len();
                    assert(len == n + 1);
                    self.caret = c0 + 1;
                    Edit::Consumed
                }
            },
            KeyCode::Backspace => {
                if c0 > 0 {
                    self.chars.remove(c0 - 1);
                    assert(old(self).chars@.remove(c0 - 1) =~= old(self).chars@.take(c0 - 1) + old(self).chars@.skip(c0 as int));
                    self.caret = c0 - 1;
                }
                Edit::Consumed
            },
            KeyCode::Delete => {
                if c0 < n {
                    self.chars.remove(c0);
                    assert(old(self).chars@.remove(c0 as int) =~= old(self).chars@.take(c0 as int) + old(self).chars@.skip(c0 + 1));
                }
                Edit::Consumed
            },
            KeyCode::Left => {
                if c0 > 0 {
                    self.caret = c0 - 1;
                }
                Edit::Consumed
            },
            KeyCode::Right => {
                if c0 < n {
                    self.caret = c0 + 1;
                }
                Edit::Consumed
            },
            KeyCode::Home => {
                self.caret = 0;
                Edit::Consumed
            },
            KeyCode::End => {
                self.caret = n;
                Edit::Consumed
            },
            _ => Edit::Ignored,
        }
    }
}

} // verus!
