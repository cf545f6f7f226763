//! The context menu and the destination dialogue. What they act on is
//! captured when they open, never read again from a cursor that may have
//! moved since.
use vstd::prelude::*;
use crate::geometry::{centred, centred_box, Rect};
use crate::input::{edit_step, Edit, TextInput};
use crate::keys::{Key, KeyCode};
use crate::ops::{archive_base, archive_destination, format_of, suffix_of, Format, OpKind};
use crate::overlays::rename::{parent_of, pushed, trim_back};
use crate::text::{chars_of, copy_range, push_str, string_of, string_views};
use crate::uri::{is_white_space, white_space};

verus! {

/// What a menu acts on, captured when it opened.
#[derive(Debug, Clone, PartialEq, Eq)]
pub struct Target {
    pub clicked: String,
    pub directory: bool,
    pub sources: Vec<String>,
    pub destination: String,
    /// The directory a newly created item goes into.
    pub create_dir: String,
}

/// One line of the menu.
#[derive(Debug, Clone, Copy, PartialEq, Eq, Structural)]
pub enum Action {
    Open,
    Preview,
    Mark,
    Copy,
    Move,
    Rename,
    CreateFile,
    CreateDirectory,
    Delete,
    Compress,
    Extract,
}

/// The words a menu line shows.
pub open spec fn label_of(a: Action) -> Seq<char> {
    match a {
        Action::Open => "Open"@,
        Action::Preview => "Preview"@,
        Action::Mark => "Mark / unmark"@,
        Action::Copy => "Copy\u{2026}"@,
        Action::Move => "Move\u{2026}"@,
        Action::Rename => "Rename\u{2026}"@,
        Action::CreateFile => "New file\u{2026}"@,
        Action::CreateDirectory => "New directory\u{2026}"@,
        Action::Delete => "Delete (queue)"@,
        Action::Compress => "Compress\u{2026}"@,
        Action::Extract => "Extract\u{2026}"@,
    }
}

impl Action {
    /// The words the menu line shows.
    pub fn label(self) -> (s: &'static str)
        ensures
            s@ == label_of(self),
    {
        match self {
            Action::Open => "Open",
            Action::Preview => "Preview",
            Action::Mark => "Mark / unmark",
            Action::Copy => "Copy\u{2026}",
            Action::Move => "Move\u{2026}",
            Action::Rename => "Rename\u{2026}",
            Action::CreateFile => "New file\u{2026}",
            Action::CreateDirectory => "New directory\u{2026}",
            Action::Delete => "Delete (queue)",
            Action::Compress => "Compress\u{2026}",
            Action::Extract => "Extract\u{2026}",
        }
    }
}

/// The lines of a menu over `sources`: creating, when nothing is selected;
/// everything else too when something is; and extracting as well when every
/// selected path names an archive.
pub open spec fn menu_actions(sources: Seq<Seq<char>>) -> Seq<Action> {
    if sources.len() == 0 {
        seq![Action::CreateFile, Action::CreateDirectory]
    } else {
        let base = seq![
            Action::Open, Action::Preview, Action::Mark, Action::Copy, Action::Move,
            Action::Rename, Action::CreateFile, Action::CreateDirectory, Action::Delete,
            Action::Compress,
        ];
        if forall|i: int| 0 <= i < sources.len() ==> #[trigger] format_of(sources[i]) is Some {
            base.push(Action::Extract)
        } else {
            base
        }
    }
}

/// A context menu open at `anchor`.
#[derive(Debug)]
pub struct Menu {
    pub target: Target,
    pub actions: Vec<Action>,
    pub cursor: usize,
    pub anchor: (u16, u16),
    pub title: &'static str,
}

fn all_archives(sources: &Vec<String>) -> (b: bool)
    ensures
        b == forall|i: int| 0 <= i < sources@.len() ==> #[trigger] format_of(string_views(sources@)[i]) is Some,
{
    let mut i: usize = 0;
    while i < sources.len()
        invariant
            i <= sources@.len(),
            forall|j: int| 0 <= j < i ==> #[trigger] format_of(string_views(sources@)[j]) is Some,
        decreases sources@.len() - i,
    {
        let p = chars_of(sources[i].as_str());
        assert(p@ == string_views(sources@)[i as int]);
        if Format::from_path(p.as_slice()).is_none() {
            return false;
        }
        i = i + 1;
    }
    true
}

/// The menu box in `area`: 26 cells wide and a row per line plus its two
/// borders, each as far as the area allows, moved from `anchor` only as far
/// as it takes to stay inside the area.
pub open spec fn menu_rect(anchor: (u16, u16), n: int, area: Rect) -> Rect {
    let w = if 26 > area.width { area.width as int } else { 26 };
    let h = if n + 2 > area.height { area.height as int } else { n + 2 };
    let right = area.x + area.width - w;
    let bottom = area.y + area.height - h;
    Rect {
        x: (if anchor.0 < area.x { area.x as int } else if anchor.0 > right { right } else { anchor.0 as int }) as u16,
        y: (if anchor.1 < area.y { area.y as int } else if anchor.1 > bottom { bottom } else { anchor.1 as int }) as u16,
        width: w as u16,
        height: h as u16,
    }
}

impl Menu {
    /// A menu over `target`, its cursor on the first line.
    pub fn new(target: Target, anchor: (u16, u16)) -> (m: Menu)
        ensures
            m.target == target,
            m.actions@ == menu_actions(string_views(target.sources@)),
            m.cursor == 0,
            m.anchor == anchor,
            m.title@ == (if target.sources@.len() == 0 { "directory actions"@ } else { "file actions"@ }),
    {
        let empty = target.sources.len() == 0;
        let mut actions = if empty {
            vec![Action::CreateFile, Action::CreateDirectory]
        } else {
            vec![
                Action::Open,
                Action::Preview,
                Action::Mark,
                Action::Copy,
                Action::Move,
                Action::Rename,
                Action::CreateFile,
                Action::CreateDirectory,
                Action::Delete,
                Action::Compress,
            ]
        };
        if !empty && all_archives(&target.sources) {
            actions.push(Action::Extract);
        }
        proof {
            let s = string_views(target.sources@);
            assert(s.len() == target.sources@.len());
        }
        Menu {
            target,
            actions,
            cursor: 0,
            anchor,
            title: if empty { "directory actions" } else { "file actions" },
        }
    }

    /// The menu offered for files dropped from outside: copy them, or move.
    pub fn for_drop(anchor: (u16, u16)) -> (m: Menu)
        ensures
            m.target.clicked@ == Seq::<char>::empty(),
            m.target.directory,
            m.target.sources@.len() == 0,
            m.target.destination@ == Seq::<char>::empty(),
            m.target.create_dir@ == Seq::<char>::empty(),
            m.actions@ == seq![Action::Copy, Action::Move],
            m.cursor == 0,
            m.anchor == anchor,
            m.title@ == "drop files"@,
    {
        Menu {
            target: Target {
                clicked: String::new(),
                directory: true,
                sources: Vec::new(),
                destination: String::new(),
                create_dir: String::new(),
            },
            actions: vec![Action::Copy, Action::Move],
            cursor: 0,
            anchor,
            title: "drop files",
        }
    }

    /// Where the menu lands in `area`.
    pub fn rect(&self, area: Rect) -> (r: Rect)
        requires
            area.in_range(),
            self.actions@.len() + 2 <= u16::MAX,
        ensures
            r == menu_rect(self.anchor, self.actions@.len() as int, area),
            area.x <= r.x,
            r.x + r.width <= area.x + area.width,
            area.y <= r.y,
            r.y + r.height <= area.y + area.height,
    {
        let w: u16 = if 26 > area.width { area.width } else { 26 };
        let n = (self.actions.len() + 2) as u16;
        let h: u16 = if n > area.height { area.height } else { n };
        let right = area.x + area.width - w;
        let bottom = area.y + area.height - h;
        let x = if self.anchor.0 < area.x { area.x } else if self.anchor.0 > right { right } else { self.anchor.0 };
        let y = if self.anchor.1 < area.y { area.y } else if self.anchor.1 > bottom { bottom } else { self.anchor.1 };
        Rect::new(x, y, w, h)
    }

    /// `k`/up and `j`/down move the cursor, kept on a line; `enter` picks
    /// the line under it.
    pub fn key(&mut self, k: Key) -> (r: Option<Action>)
        requires
            (k.code == KeyCode::Down || k.code == KeyCode::Char('j')) ==> old(self).actions@.len() > 0,
        ensures
            final(self).target == old(self).target,
            final(self).actions@ == old(self).actions@,
            final(self).anchor == old(self).anchor,
            final(self).title == old(self).title,
            ({
                let c = old(self).cursor as int;
                let n = old(self).actions@.len() as int;
                match k.code {
                    KeyCode::Up => final(self).cursor == (if c > 0 { c - 1 } else { 0 }) && r is None,
                    KeyCode::Char('k') => final(self).cursor == (if c > 0 { c - 1 } else { 0 }) && r is None,
                    KeyCode::Down => final(self).cursor == (if c + 1 < n - 1 { c + 1 } else { n - 1 }) && r is None,
                    KeyCode::Char('j') => final(self).cursor == (if c + 1 < n - 1 { c + 1 } else { n - 1 }) && r is None,
                    KeyCode::Enter => final(self).cursor == c
                        && r == (if c < n { Some(old(self).actions@[c]) } else { None::<Action> }),
                    _ => final(self).cursor == c && r is None,
                }
            }),
    {
        match k.code {
            KeyCode::Up | KeyCode::Char('k') => {
                if self.cursor > 0 {
                    self.cursor = self.cursor - 1;
                }
            },
            KeyCode::Down | KeyCode::Char('j') => {
                let last = self.actions.len() - 1;
                self.cursor = if self.cursor < last { self.cursor + 1 } else { last };
            },
            KeyCode::Enter => {
                return if self.cursor < self.actions.len() { Some(self.actions[self.cursor]) } else { None };
            },
            _ => {},
        }
        None
    }
}

/// An operation asked for from a menu, waiting for its destination.
#[derive(Debug, Clone, PartialEq, Eq)]
pub struct Request {
    pub kind: OpKind,
    pub sources: Vec<String>,
    pub destination: String,
}

/// The formats the `tab` key cycles through, in order.
pub open spec fn cycle() -> Seq<Format> {
    seq![Format::Zip, Format::Tar, Format::TarGz, Format::TarZst, Format::SevenZip]
}

/// The format after the one `text` names in the cycle; the second when it
/// names none.
pub open spec fn next_format(text: Seq<char>) -> Format {
    match format_of(text) {
        Some(Format::Zip) => Format::Tar,
        Some(Format::Tar) => Format::TarGz,
        Some(Format::TarGz) => Format::TarZst,
        Some(Format::TarZst) => Format::SevenZip,
        Some(Format::SevenZip) => Format::Zip,
        None => Format::Tar,
    }
}

/// The directory a destination typed without a leading `/` is taken from:
/// the one the suggested destination is in, `.` when it names no parent.
pub open spec fn base_dir(dest: Seq<char>) -> Seq<char> {
    let t = trim_back(dest);
    if t.len() == 0 || t == seq!['/'] {
        seq!['.']
    } else {
        parent_of(dest)
    }
}

/// Whether `text` is nothing but white space.
pub open spec fn blank(text: Seq<char>) -> bool {
    forall|i: int| 0 <= i < text.len() ==> is_white_space(#[trigger] text[i])
}

/// Where the typed text puts the destination.
pub open spec fn typed_destination(text: Seq<char>, suggested: Seq<char>) -> Seq<char> {
    if text.len() > 0 && text[0] == '/' {
        text
    } else {
        pushed(base_dir(suggested), text)
    }
}

/// What submitting `text` for `request` queues, its kind and destination,
/// or why it is refused: a blank destination, or for a compression one whose
/// suffix names no format.
pub open spec fn submitted(text: Seq<char>, request: Request) -> Result<(OpKind, Seq<char>), Seq<char>> {
    if blank(text) {
        Err("Enter a destination"@)
    } else {
        let dest = typed_destination(text, request.destination@);
        if request.kind is Compress {
            match format_of(dest) {
                Some(f) => Ok((OpKind::Compress(f), dest)),
                None => Err("Use .zip, .tar, .tar.gz, .tar.zst or .7z"@),
            }
        } else {
            Ok((request.kind, dest))
        }
    }
}

/// The destination dialogue: the request, the field, and why the last
/// submission was refused.
#[derive(Debug)]
pub struct Destination {
    pub request: Request,
    pub input: TextInput,
    pub error: Option<String>,
}

fn is_blank(text: &[char]) -> (b: bool)
    ensures
        b == blank(text@),
{
    let mut i: usize = 0;
    while i < text.len()
        invariant
            i <= text@.len(),
            forall|j: int| 0 <= j < i ==> is_white_space(#[trigger] text@[j]),
        decreases text@.len() - i,
    {
        if !white_space(text[i]) {
            return false;
        }
        i = i + 1;
    }
    true
}

fn parent_dir(dest: &[char]) -> (out: Vec<char>)
    ensures
        out@ == base_dir(dest@),
{
    let t = crate::overlays::rename::trimmed(dest);
    if t.len() == 0 || (t.len() == 1 && t[0] == '/') {
        proof {
            if t@.len() == 1 {
                assert(t@ =~= seq!['/']);
            }
        }
        vec!['.']
    } else {
        proof {
            if t@ == seq!['/'] {
                assert(t@[0] == '/');
            }
        }
        crate::overlays::rename::parent(dest)
    }
}

impl Destination {
    /// The dialogue for `request`, the field loaded with its suggested
    /// destination.
    pub fn new(request: Request) -> (d: Destination)
        ensures
            d.request == request,
            d.input.wf(),
            d.input.text_view() == request.destination@,
            d.input.caret_view() == request.destination@.len(),
            d.error is None,
    {
        let input = TextInput::single().with_text(request.destination.as_str());
        Destination { request, input, error: None }
    }

    /// `tab` on a compression swaps the typed suffix for the next format's;
    /// `enter` queues the request with the typed destination, refusing a
    /// blank one and, for a compression, one that names no format.
    pub fn handle(&mut self, k: Key) -> (r: Option<Request>)
        requires
            old(self).input.wf(),
        ensures
            final(self).input.wf(),
            final(self).request == old(self).request,
            ({
                let text = old(self).input.text_view();
                if k.code == KeyCode::Tab && old(self).request.kind is Compress {
                    &&& r is None
                    &&& final(self).input.text_view()
                        == archive_base(text) + seq!['.'] + suffix_of(next_format(text))
                    &&& final(self).input.caret_view() == final(self).input.text_view().len()
                    &&& final(self).error == old(self).error
                } else {
                    let (t, caret, e) = edit_step(text, old(self).input.caret_view(), k);
                    &&& final(self).input.text_view() == t
                    &&& final(self).input.caret_view() == caret
                    &&& if e != Edit::Submit {
                        r is None && final(self).error == old(self).error
                    } else {
                        match submitted(t, old(self).request) {
                            Ok((kind, dest)) => (r matches Some(q) && q.kind == kind
                                && q.sources@ == old(self).request.sources@ && q.destination@ == dest)
                                && final(self).error == old(self).error,
                            Err(m) => r is None && (final(self).error matches Some(x) && x@ == m),
                        }
                    }
                }
            }),
    {
        let is_compress = match self.request.kind {
            OpKind::Compress(_) => true,
            _ => false,
        };
        let tab = match k.code {
            KeyCode::Tab => true,
            _ => false,
        };
        if tab && is_compress {
            let text = self.input.chars();
            let next = match Format::from_path(text) {
                Some(Format::Zip) => Format::Tar,
                Some(Format::Tar) => Format::TarGz,
                Some(Format::TarGz) => Format::TarZst,
                Some(Format::TarZst) => Format::SevenZip,
                Some(Format::SevenZip) => Format::Zip,
                None => Format::Tar,
            };
            let mut base = archive_destination(text);
            base.push('.');
            push_str(&mut base, next.suffix());
            let s = string_of(base.as_slice());
            self.input = TextInput::single().with_text(s.as_str());
            return None;
        }
        if self.input.handle(k) == Edit::Submit {
            let text = self.input.chars();
            if is_blank(text) {
                self.error = Some(String::from_str("Enter a destination"));
                return None;
            }
            let dest = if text.len() > 0 && text[0] == '/' {
                copy_range(text, 0, text.len())
            } else {
                let suggested = chars_of(self.request.destination.as_str());
                let dir = parent_dir(suggested.as_slice());
                crate::overlays::rename::push_under(dir.as_slice(), text)
            };
            proof {
                if text@.len() > 0 && text@[0] == '/' {
                    assert(text@.subrange(0, text@.len() as int) =~= text@);
                }
            }
            let kind = if is_compress {
                match Format::from_path(dest.as_slice()) {
                    Some(f) => OpKind::Compress(f),
                    None => {
                        self.error = Some(String::from_str("Use .zip, .tar, .tar.gz, .tar.zst or .7z"));
                        return None;
                    },
                }
            } else {
                self.request.kind
            };
            return Some(Request {
                kind,
                sources: crate::text::clone_strings(&self.request.sources),
                destination: string_of(dest.as_slice()),
            });
        }
        None
    }

    /// Where the dialogue lands: centred, 24 to 76 cells wide, six rows high.
    pub fn rect(area: Rect) -> (r: Rect)
        requires
            area.in_range(),
        ensures
            r == centred_box(area, 24, 76, 6, 3),
    {
        centred(area, 24, 76, 6, 3)
    }
}

} // verus!
