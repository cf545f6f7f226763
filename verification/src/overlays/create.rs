//! Name entry for a new empty file or directory, and the prompt for a
//! filename search below the open directory.
use vstd::prelude::*;
use crate::geometry::{centred, centred_box, Rect};
use crate::input::{edit_step, Edit, TextInput};
use crate::keys::Key;
use crate::places::trim;
use crate::text::{chars_of, string_of};

verus! {

/// What is created.
#[derive(Debug, Clone, Copy, PartialEq, Eq, Structural)]
pub enum Kind {
    File,
    Directory,
}

/// What a key did to the form.
#[derive(Debug, Clone, PartialEq, Eq)]
pub enum Action {
    Taken,
    Close,
    Create { dir: String, kind: Kind, name: String },
}

/// Why a name is refused for a new entry, or nothing when it is fine: it
/// is not empty, not `.` or `..`, and holds no `/`.
pub open spec fn name_error(name: Seq<char>) -> Option<Seq<char>> {
    if name.len() == 0 {
        Some("a name cannot be empty"@)
    } else if name == seq!['.'] || name == seq!['.', '.'] {
        Some("that is not a name"@)
    } else if name.contains('/') {
        Some("a name cannot contain /"@)
    } else {
        None
    }
}

/// Why `name` is refused for a new entry.
pub fn validate_name(name: &[char]) -> (r: Option<&'static str>)
    ensures
        match r {
            Some(e) => name_error(name@) == Some(e@),
            None => name_error(name@) is None,
        },
{
    proof {
        reveal_strlit("a name cannot be empty");
        reveal_strlit("that is not a name");
        reveal_strlit("a name cannot contain /");
    }
    if name.len() == 0 {
        return Some("a name cannot be empty");
    }
    if (name.len() == 1 && name[0] == '.') || (name.len() == 2 && name[0] == '.' && name[1] == '.') {
        proof {
            if name@.len() == 1 {
                assert(name@ =~= seq!['.']);
            } else {
                assert(name@ =~= seq!['.', '.']);
            }
        }
        return Some("that is not a name");
    }
    proof {
        if name@ == seq!['.'] {
            assert(name@[0] == '.');
        }
        if name@ == seq!['.', '.'] {
            assert(name@[0] == '.' && name@[1] == '.');
        }
    }
    match crate::text::find_char(name, '/') {
        Some(i) => {
            assert(name@[i as int] == '/');
            Some("a name cannot contain /")
        },
        None => {
            assert(!name@.contains('/'));
            None
        },
    }
}

/// The form for a new entry in `dir`.
#[derive(Debug)]
pub struct Create {
    pub dir: String,
    pub kind: Kind,
    pub input: TextInput,
    pub error: Option<&'static str>,
}

impl Create {
    /// An empty form.
    pub fn new(dir: String, kind: Kind) -> (c: Create)
        ensures
            c.dir@ == dir@,
            c.kind == kind,
            c.input.wf(),
            c.input.text_view().len() == 0,
            c.input.caret_view() == 0,
            c.error is None,
    {
        Create { dir, kind, input: TextInput::single(), error: None }
    }

    /// Apply a key: `enter` creates with a name that passes
    /// [`validate_name`] and keeps the form open with a hint otherwise.
    pub fn handle(&mut self, key: Key) -> (a: Action)
        requires
            old(self).input.wf(),
        ensures
            final(self).input.wf(),
            final(self).dir == old(self).dir,
            final(self).kind == old(self).kind,
            ({
                let (t, c, e) = edit_step(old(self).input.text_view(), old(self).input.caret_view(), key);
                &&& final(self).input.text_view() == t
                &&& final(self).input.caret_view() == c
                &&& match e {
                    Edit::Submit => match name_error(t) {
                        None => (a matches Action::Create { dir, kind, name }
                            && dir@ == old(self).dir@ && kind == old(self).kind && name@ == t)
                            && final(self).error == old(self).error,
                        Some(h) => a == Action::Taken && (final(self).error matches Some(x) && x@ == h),
                    },
                    Edit::Cancel => a == Action::Close && final(self).error == old(self).error,
                    Edit::Consumed => a == Action::Taken && final(self).error is None,
                    Edit::Ignored => a == Action::Taken && final(self).error == old(self).error,
                }
            }),
    {
        match self.input.handle(key) {
            Edit::Submit => match validate_name(self.input.chars()) {
                None => Action::Create { dir: self.dir.clone(), kind: self.kind, name: self.input.text() },
                Some(error) => {
                    self.error = Some(error);
                    Action::Taken
                },
            },
            Edit::Cancel => Action::Close,
            Edit::Consumed => {
                self.error = None;
                Action::Taken
            },
            Edit::Ignored => Action::Taken,
        }
    }
}

/// Where the form lands: centred, 24 to 60 cells wide, four rows high.
pub fn rect(area: Rect) -> (r: Rect)
    requires
        area.in_range(),
    ensures
        r == centred_box(area, 24, 60, 4, 3),
{
    centred(area, 24, 60, 4, 3)
}

/// The filename search prompt.
#[derive(Debug)]
pub struct Search {
    pub input: TextInput,
    pub error: Option<&'static str>,
}

impl Search {
    /// The prompt loaded with `query`.
    pub fn new(query: &str) -> (s: Search)
        ensures
            s.input.wf(),
            s.input.text_view() == query@,
            s.input.caret_view() == query@.len(),
            s.error is None,
    {
        Search { input: TextInput::single().with_text(query), error: None }
    }

    /// Apply a key: `enter` with something typed searches for it, trimmed;
    /// with nothing it asks for a filename.
    pub fn handle(&mut self, key: Key) -> (r: Option<String>)
        requires
            old(self).input.wf(),
        ensures
            final(self).input.wf(),
            ({
                let (t, c, e) = edit_step(old(self).input.text_view(), old(self).input.caret_view(), key);
                &&& final(self).input.text_view() == t
                &&& final(self).input.caret_view() == c
                &&& match e {
                    Edit::Submit => if trim(t).len() > 0 {
                        (r matches Some(q) && q@ == trim(t)) && final(self).error == old(self).error
                    } else {
                        r is None && (final(self).error matches Some(x) && x@ == "enter a filename"@)
                    },
                    Edit::Consumed => r is None && final(self).error is None,
                    _ => r is None && final(self).error == old(self).error,
                }
            }),
    {
        match self.input.handle(key) {
            Edit::Submit => {
                let t = crate::places::trimmed_pub(self.input.chars());
                if t.len() > 0 {
                    Some(string_of(t.as_slice()))
                } else {
                    self.error = Some("enter a filename");
                    None
                }
            },
            Edit::Consumed => {
                self.error = None;
                None
            },
            _ => None,
        }
    }
}

/// Where the prompt lands: centred, 30 to 64 cells wide, four rows high.
pub fn search_rect(area: Rect) -> (r: Rect)
    requires
        area.in_range(),
    ensures
        r == centred_box(area, 30, 64, 4, 3),
{
    centred(area, 30, 64, 4, 3)
}

} // verus!
