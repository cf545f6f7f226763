//! Renaming the entry under the cursor: a one-line field, loaded with the
//! current name, the caret before the extension.
use vstd::prelude::*;
use crate::geometry::{centred, centred_box, Rect};
use crate::input::{edit_step, Edit, TextInput};
use crate::keys::Key;
use crate::text::{chars_of, copy_range, find_char, last_index, rfind_char, same_chars, string_of};

verus! {

/// What a key did.
#[derive(Debug, Clone, PartialEq, Eq)]
pub enum Action {
    Taken,
    Close,
    /// A name that passed [`validate`], joined to the directory it stays in.
    Renamed(String),
}

/// `path` without the separators and `.` components it ends with; a lone
/// `/` or `.` is kept.
pub open spec fn trim_back(p: Seq<char>) -> Seq<char>
    decreases p.len(),
{
    if p.len() > 1 && p.last() == '/' {
        trim_back(p.drop_last())
    } else if p.len() >= 2 && p.last() == '.' && p[p.len() - 2] == '/' {
        trim_back(p.drop_last())
    } else {
        p
    }
}

/// The last component of `path`, whatever it is.
pub open spec fn last_component(path: Seq<char>) -> Seq<char> {
    let t = trim_back(path);
    match last_index(t, '/') {
        Some(k) => t.skip(k + 1),
        None => t,
    }
}

/// The name `path` ends in: its last component, unless that is empty (the
/// root), `.` or `..`.
pub open spec fn file_name_of(path: Seq<char>) -> Option<Seq<char>> {
    let n = last_component(path);
    if n.len() == 0 || n == seq!['.'] || n == seq!['.', '.'] {
        None
    } else {
        Some(n)
    }
}

/// What is left of `path` once its last component is gone.
pub open spec fn parent_of(path: Seq<char>) -> Seq<char> {
    let t = trim_back(path);
    match last_index(t, '/') {
        Some(k) => trim_back(t.take(k + 1)),
        None => Seq::empty(),
    }
}

/// `name` put under `dir`, with one separator between them.
pub open spec fn pushed(dir: Seq<char>, name: Seq<char>) -> Seq<char> {
    if dir.len() == 0 {
        name
    } else if dir.last() == '/' {
        dir + name
    } else {
        dir.push('/') + name
    }
}

/// `path` with its name replaced by `name`; `name` put under `path` when
/// `path` names nothing.
pub open spec fn with_name(path: Seq<char>, name: Seq<char>) -> Seq<char> {
    if file_name_of(path) is Some {
        pushed(parent_of(path), name)
    } else {
        pushed(path, name)
    }
}

/// Where the caret starts in `name`: before its last `.`, unless that `.`
/// opens the name or there is none, and then at the end.
pub open spec fn extension_at(name: Seq<char>) -> int {
    match last_index(name, '.') {
        Some(i) => if i == 0 { name.len() as int } else { i },
        None => name.len() as int,
    }
}

/// Why `name` is refused as the new name of `from`, or the path it renames
/// `from` to.
pub open spec fn validation(name: Seq<char>, from: Seq<char>) -> Result<Seq<char>, Seq<char>> {
    if name.len() == 0 {
        Err("a name cannot be empty"@)
    } else if name == seq!['.'] || name == seq!['.', '.'] {
        Err("that is not a name"@)
    } else if name.contains('/') {
        Err("a name cannot contain /"@)
    } else if file_name_of(from) == Some(name) {
        Err("that is the name it already has"@)
    } else {
        Ok(with_name(from, name))
    }
}

pub(crate) fn trimmed(p: &[char]) -> (out: Vec<char>)
    ensures
        out@ == trim_back(p@),
{
    let mut n = p.len();
    let mut done = false;
    assert(p@.take(n as int) =~= p@);
    while !done && n > 0
        invariant
            n <= p@.len(),
            trim_back(p@.take(n as int)) == trim_back(p@),
            done ==> trim_back(p@.take(n as int)) == p@.take(n as int),
        decreases n, (if done { 0int } else { 1int }),
    {
        let ghost t = p@.take(n as int);
        if n > 1 && p[n - 1] == '/' {
            assert(t.drop_last() =~= p@.take(n - 1));
            n = n - 1;
        } else if n >= 2 && p[n - 1] == '.' && p[n - 2] == '/' {
            assert(t.drop_last() =~= p@.take(n - 1));
            n = n - 1;
        } else {
            done = true;
        }
    }
    proof {
        if n == 0 {
            assert(p@.take(0) =~= Seq::<char>::empty());
        }
    }
    copy_range(p, 0, n)
}

fn component_start(t: &[char]) -> (r: usize)
    ensures
        r <= t@.len(),
        r == (match last_index(t@, '/') {
            Some(k) => k + 1,
            None => 0,
        }),
{
    let l = t.len();
    match rfind_char(t, '/') {
        Some(k) => {
            assert(k < l);
            k + 1
        },
        None => 0,
    }
}

/// The name `path` ends in.
pub fn file_name(path: &[char]) -> (r: Option<Vec<char>>)
    ensures
        match r {
            Some(n) => file_name_of(path@) == Some(n@),
            None => file_name_of(path@) is None,
        },
{
    let t = trimmed(path);
    let s = component_start(t.as_slice());
    let n = copy_range(t.as_slice(), s, t.len());
    proof {
        assert(n@ =~= last_component(path@));
    }
    if n.len() == 0 || (n.len() == 1 && n[0] == '.') || (n.len() == 2 && n[0] == '.' && n[1] == '.') {
        proof {
            if n@.len() == 1 {
                assert(n@ =~= seq!['.']);
            }
            if n@.len() == 2 {
                assert(n@ =~= seq!['.', '.']);
            }
        }
        None
    } else {
        proof {
            if n@ == seq!['.'] {
                assert(n@[0] == '.');
            }
            if n@ == seq!['.', '.'] {
                assert(n@[0] == '.' && n@[1] == '.');
            }
        }
        Some(n)
    }
}

pub(crate) fn push_under(dir: &[char], name: &[char]) -> (out: Vec<char>)
    ensures
        out@ == pushed(dir@, name@),
{
    let mut out = copy_range(dir, 0, dir.len());
    assert(out@ =~= dir@);
    if dir.len() > 0 && dir[dir.len() - 1] != '/' {
        out.push('/');
    }
    let mut i: usize = 0;
    let ghost start = out@;
    while i < name.len()
        invariant
            i <= name@.len(),
            out@ == start + name@.take(i as int),
        decreases name@.len() - i,
    {
        out.push(name[i]);
        assert(name@.take(i + 1) =~= name@.take(i as int).push(name@[i as int]));
        i = i + 1;
    }
    assert(name@.take(name@.len() as int) =~= name@);
    assert(out@ =~= pushed(dir@, name@));
    out
}

/// What is left of `path` once its last component is gone.
pub(crate) fn parent(path: &[char]) -> (out: Vec<char>)
    ensures
        out@ == parent_of(path@),
{
    let t = trimmed(path);
    let tl = t.len();
    let r = match rfind_char(t.as_slice(), '/') {
        Some(k) => {
            assert(k < tl);
            let head = copy_range(t.as_slice(), 0, k + 1);
            trimmed(head.as_slice())
        },
        None => Vec::new(),
    };
    proof {
        if let Some(k) = last_index(t@, '/') {
            assert(t@.subrange(0, k + 1) =~= t@.take(k + 1));
        }
    }
    r
}

/// `path` with its name replaced by `name`.
pub fn with_file_name(path: &[char], name: &[char]) -> (out: Vec<char>)
    ensures
        out@ == with_name(path@, name@),
{
    match file_name(path) {
        Some(_) => {
            let t = trimmed(path);
            let tl = t.len();
            let parent = match rfind_char(t.as_slice(), '/') {
                Some(k) => {
                    assert(k < tl);
                    let head = copy_range(t.as_slice(), 0, k + 1);
                    trimmed(head.as_slice())
                },
                None => Vec::new(),
            };
            proof {
                if let Some(k) = last_index(t@, '/') {
                    assert(t@.subrange(0, k + 1) =~= t@.take(k + 1));
                }
            }
            push_under(parent.as_slice(), name)
        },
        None => push_under(path, name),
    }
}

/// Where the caret starts in `name`.
pub fn extension_cursor(name: &[char]) -> (n: usize)
    ensures
        n == extension_at(name@),
{
    match rfind_char(name, '.') {
        Some(i) => if i == 0 { name.len() } else { i },
        None => name.len(),
    }
}

/// The path `name` renames `from` to, or why it is refused.
pub fn validate(name: &[char], from: &[char]) -> (r: Result<Vec<char>, &'static str>)
    ensures
        match r {
            Ok(to) => validation(name@, from@) == Ok::<Seq<char>, Seq<char>>(to@),
            Err(hint) => validation(name@, from@) == Err::<Seq<char>, Seq<char>>(hint@),
        },
{
    proof {
        reveal_strlit("a name cannot be empty");
        reveal_strlit("that is not a name");
        reveal_strlit("a name cannot contain /");
        reveal_strlit("that is the name it already has");
    }
    if name.len() == 0 {
        return Err("a name cannot be empty");
    }
    if (name.len() == 1 && name[0] == '.') || (name.len() == 2 && name[0] == '.' && name[1] == '.') {
        proof {
            if name@.len() == 1 {
                assert(name@ =~= seq!['.']);
            } else {
                assert(name@ =~= seq!['.', '.']);
            }
        }
        return Err("that is not a name");
    }
    proof {
        if name@ == seq!['.'] {
            assert(name@[0] == '.');
        }
        if name@ == seq!['.', '.'] {
            assert(name@[0] == '.' && name@[1] == '.');
        }
    }
    match find_char(name, '/') {
        Some(i) => {
            assert(name@[i as int] == '/');
            return Err("a name cannot contain /");
        },
        None => {
            assert(!name@.contains('/'));
        },
    }
    match file_name(from) {
        Some(n) => {
            if same_chars(n.as_slice(), name) {
                return Err("that is the name it already has");
            }
        },
        None => {},
    }
    Ok(with_file_name(from, name))
}

/// A rename in progress: what is renamed, the field, and why the last
/// submission was refused.
#[derive(Debug)]
pub struct Rename {
    pub from: String,
    pub input: TextInput,
    pub error: Option<&'static str>,
}

impl Rename {
    /// The field loaded with the name `from` ends in, the caret before its
    /// extension.
    pub fn new(from: String) -> (r: Rename)
        ensures
            r.from@ == from@,
            r.input.wf(),
            r.input.text_view() == (match file_name_of(from@) {
                Some(n) => n,
                None => Seq::<char>::empty(),
            }),
            r.input.caret_view() == extension_at(r.input.text_view()),
            r.error is None,
    {
        let path = chars_of(from.as_str());
        let name = match file_name(path.as_slice()) {
            Some(n) => n,
            None => Vec::new(),
        };
        let cursor = extension_cursor(name.as_slice());
        let text = string_of(name.as_slice());
        let mut input = TextInput::single().with_text(text.as_str());
        input.set_cursor(cursor);
        Rename { from, input, error: None }
    }

    /// Apply a key: `enter` submits a name that passes [`validate`] and
    /// keeps the field open with a hint otherwise; `esc` gives up.
    pub fn handle(&mut self, key: Key) -> (a: Action)
        requires
            old(self).input.wf(),
        ensures
            final(self).input.wf(),
            final(self).from == old(self).from,
            ({
                let (text, caret, e) = edit_step(old(self).input.text_view(), old(self).input.caret_view(), key);
                &&& final(self).input.text_view() == text
                &&& final(self).input.caret_view() == caret
                &&& match e {
                    Edit::Submit => match validation(text, old(self).from@) {
                        Ok(to) => (a matches Action::Renamed(s) && s@ == to) && final(self).error == old(self).error,
                        Err(hint) => a == Action::Taken && (final(self).error matches Some(h) && h@ == hint),
                    },
                    Edit::Cancel => a == Action::Close && final(self).error == old(self).error,
                    Edit::Consumed => a == Action::Taken && final(self).error is None,
                    Edit::Ignored => a == Action::Taken && final(self).error == old(self).error,
                }
            }),
    {
        match self.input.handle(key) {
            Edit::Submit => {
                let from = chars_of(self.from.as_str());
                match validate(self.input.chars(), from.as_slice()) {
                    Ok(to) => Action::Renamed(string_of(to.as_slice())),
                    Err(hint) => {
                        self.error = Some(hint);
                        Action::Taken
                    },
                }
            },
            Edit::Cancel => Action::Close,
            Edit::Consumed => {
                self.error = None;
                Action::Taken
            },
            Edit::Ignored => Action::Taken,
        }
    }
}

/// Where the box lands: centred, 24 to 60 cells wide, four rows high.
pub fn rect(area: Rect) -> (r: Rect)
    requires
        area.in_range(),
    ensures
        r == centred_box(area, 24, 60, 4, 3),
{
    centred(area, 24, 60, 4, 3)
}

} // verus!
