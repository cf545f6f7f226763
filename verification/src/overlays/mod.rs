//! What is drawn over the column: help, a confirmation, a rename, a
//! conflict, a context menu, a destination.
//!
//! One rule holds them together: only one is ever open, and while one is it
//! takes every key. `esc` closes whichever is open, and `ctrl+c` quits from
//! inside any of them as it does everywhere else.
pub mod confirm;
pub mod conflict;
pub mod rename;
pub mod context;
pub mod create;

use vstd::prelude::*;
use crate::geometry::{centred, centred_box, inside, Rect};
use crate::input::{edit_step, Edit};
use crate::keys::{is_ctrl_c, is_esc, Key, KeyCode};
use crate::ops::{ConflictPolicy, OpId};
use crate::overlays::conflict::{in_span, moved, policy_of, step_of};
use crate::overlays::context::submitted;
use crate::overlays::rename::validation;

verus! {

/// What a confirmation is asking about, carried through unopened so the
/// caller learns it again only once the answer is yes.
#[derive(Debug, Clone, Copy, PartialEq, Eq, Structural)]
pub enum Pending {
    DeletePermanently(OpId),
    ClearQueue,
    CancelRunning(OpId),
    Quit,
}

/// The one overlay that may be open, and what it keeps between frames.
#[derive(Debug)]
pub enum Overlay {
    Context(context::Menu),
    Destination(context::Destination),
    Help { scroll: u16 },
    Confirm(confirm::Confirm),
    Rename(rename::Rename),
    Conflict(conflict::Prompt),
}

/// Modal things drawn over everything else.
#[derive(Debug)]
pub struct Overlays {
    current: Option<Overlay>,
}

/// What handling a key or a click did.
#[derive(Debug, Clone, PartialEq, Eq)]
pub enum Answer {
    Context(context::Target, context::Action),
    Operation(context::Request),
    /// The overlay took the key or click; nothing else happened.
    Consumed,
    /// The overlay closed without deciding anything.
    Closed,
    /// Yes to a confirmation.
    Confirmed(Pending),
    /// A rename submitted with a name that passed validation.
    Renamed { from: String, to: String },
    /// A conflict policy, for the whole operation.
    Policy { op: OpId, policy: ConflictPolicy },
    /// `ctrl+c`.
    Quit,
}

/// How a confirmation reads a key.
#[derive(Debug, Clone, Copy, PartialEq, Eq, Structural)]
pub enum Reply {
    Yes,
    No,
    Quit,
    Waiting,
}

/// `y`, `Y` or `enter` say yes; `n`, `N` or `esc` say no; `ctrl+c` quits;
/// any other key leaves the question waiting.
pub open spec fn reply_of(k: Key) -> Reply {
    if k.is_ctrl_c() {
        Reply::Quit
    } else {
        match k.code {
            KeyCode::Char(c) => if c == 'y' || c == 'Y' {
                Reply::Yes
            } else if c == 'n' || c == 'N' {
                Reply::No
            } else {
                Reply::Waiting
            },
            KeyCode::Enter => Reply::Yes,
            KeyCode::Esc => Reply::No,
            _ => Reply::Waiting,
        }
    }
}

/// How a confirmation reads `k`.
pub fn reply(k: Key) -> (r: Reply)
    ensures
        r == reply_of(k),
{
    if is_ctrl_c(k) {
        return Reply::Quit;
    }
    match k.code {
        KeyCode::Char(c) => if c == 'y' || c == 'Y' {
            Reply::Yes
        } else if c == 'n' || c == 'N' {
            Reply::No
        } else {
            Reply::Waiting
        },
        KeyCode::Enter => Reply::Yes,
        KeyCode::Esc => Reply::No,
        _ => Reply::Waiting,
    }
}

/// The help's scroll after `k`: `j`/down and `k`/up by one, page down and
/// page up by ten, never below nought nor past the top of a `u16`. `None`
/// for any other key, which closes the help.
pub open spec fn help_scroll(scroll: u16, k: Key) -> Option<u16> {
    let down = |n: int| (if scroll + n > u16::MAX { u16::MAX as int } else { scroll + n }) as u16;
    let up = |n: int| (if scroll < n { 0 } else { scroll - n }) as u16;
    match k.code {
        KeyCode::Char(c) => if c == 'j' {
            Some(down(1))
        } else if c == 'k' {
            Some(up(1))
        } else {
            None
        },
        KeyCode::Down => Some(down(1)),
        KeyCode::Up => Some(up(1)),
        KeyCode::PageDown => Some(down(10)),
        KeyCode::PageUp => Some(up(10)),
        _ => None,
    }
}

/// What a key does to a context menu: the new cursor and, when the menu
/// answers, the line picked.
pub open spec fn menu_step(cursor: int, n: int, actions: Seq<context::Action>, k: Key) -> (int, Option<context::Action>) {
    match k.code {
        KeyCode::Up => (if cursor > 0 { cursor - 1 } else { 0 }, None),
        KeyCode::Char(c) => if c == 'k' {
            (if cursor > 0 { cursor - 1 } else { 0 }, None)
        } else if c == 'j' {
            (if cursor + 1 < n - 1 { cursor + 1 } else { n - 1 }, None)
        } else {
            (cursor, None)
        },
        KeyCode::Down => (if cursor + 1 < n - 1 { cursor + 1 } else { n - 1 }, None),
        KeyCode::Enter => (cursor, if cursor < n { Some(actions[cursor]) } else { None }),
        _ => (cursor, None),
    }
}

/// What it takes for a key to reach the open overlay without panicking: a
/// context menu has at least one line.
pub open spec fn key_ok(o: Option<Overlay>) -> bool {
    match o {
        Some(Overlay::Context(m)) => m.actions@.len() > 0,
        Some(Overlay::Rename(r)) => r.input.wf(),
        Some(Overlay::Destination(d)) => d.input.wf(),
        _ => true,
    }
}

/// What a key does to the open overlay, and what it answers. `None` before
/// the key means nothing was open.
pub open spec fn handled(before: Option<Overlay>, after: Option<Overlay>, k: Key, a: Answer) -> bool {
    match before {
        None => a == Answer::Closed && after is None,
        Some(o) => if k.is_ctrl_c() {
            a == Answer::Quit && after is None
        } else if k.code == KeyCode::Esc {
            a == Answer::Closed && after is None
        } else {
            match o {
                Overlay::Help { scroll } => match help_scroll(scroll, k) {
                    Some(s) => a == Answer::Consumed && after == Some(Overlay::Help { scroll: s }),
                    None => a == Answer::Closed && after is None,
                },
                Overlay::Confirm(c) => match reply_of(k) {
                    Reply::Yes => a == Answer::Confirmed(c.pending) && after is None,
                    Reply::No => a == Answer::Closed && after is None,
                    Reply::Quit => a == Answer::Quit && after is None,
                    Reply::Waiting => a == Answer::Consumed && after == before,
                },
                Overlay::Conflict(p) => match policy_of(k) {
                    Some(pol) => a == (Answer::Policy { op: p.op, policy: pol }) && after is None,
                    None => a == Answer::Consumed && (after matches Some(Overlay::Conflict(q))
                        && q.op == p.op && q.conflicts@ == p.conflicts@ && q.scroll == p.scroll
                        && q.cursor == (if step_of(k) == 0 {
                            p.cursor as int
                        } else {
                            moved(p.cursor as int, step_of(k), p.conflicts@.len() as int)
                        })),
                },
                Overlay::Rename(r) => {
                    let (t, caret, e) = edit_step(r.input.text_view(), r.input.caret_view(), k);
                    let open_with = |err: Option<&'static str>| after matches Some(Overlay::Rename(q))
                        && q.from == r.from && q.input.wf() && q.input.text_view() == t
                        && q.input.caret_view() == caret && q.error == err;
                    match e {
                        Edit::Submit => match validation(t, r.from@) {
                            Ok(to) => (a matches Answer::Renamed { from, to: s } && from == r.from && s@ == to)
                                && after is None,
                            Err(h) => a == Answer::Consumed && (after matches Some(Overlay::Rename(q))
                                && q.from == r.from && q.input.wf() && q.input.text_view() == t
                                && q.input.caret_view() == caret && (q.error matches Some(m) && m@ == h)),
                        },
                        Edit::Cancel => a == Answer::Closed && after is None,
                        Edit::Consumed => a == Answer::Consumed && open_with(None),
                        Edit::Ignored => a == Answer::Consumed && open_with(r.error),
                    }
                },
                Overlay::Context(m) => {
                    let (c, picked) = menu_step(m.cursor as int, m.actions@.len() as int, m.actions@, k);
                    match picked {
                        Some(act) => a == Answer::Context(m.target, act) && after is None,
                        None => a == Answer::Consumed && (after matches Some(Overlay::Context(q))
                            && q.target == m.target && q.actions@ == m.actions@ && q.cursor == c
                            && q.anchor == m.anchor && q.title == m.title),
                    }
                },
                Overlay::Destination(d) => {
                    let text = d.input.text_view();
                    if k.code == KeyCode::Tab && d.request.kind is Compress {
                        a == Answer::Consumed && (after matches Some(Overlay::Destination(q))
                            && q.request == d.request && q.input.wf() && q.error == d.error
                            && q.input.text_view() == crate::ops::archive_base(text) + seq!['.']
                                + crate::ops::suffix_of(context::next_format(text))
                            && q.input.caret_view() == q.input.text_view().len())
                    } else {
                        let (t, caret, e) = edit_step(text, d.input.caret_view(), k);
                        let stays = |err: Option<String>| after matches Some(Overlay::Destination(q))
                            && q.request == d.request && q.input.wf() && q.input.text_view() == t
                            && q.input.caret_view() == caret && q.error == err;
                        if e != Edit::Submit {
                            a == Answer::Consumed && stays(d.error)
                        } else {
                            match submitted(t, d.request) {
                                Ok((kind, dest)) => (a matches Answer::Operation(q) && q.kind == kind
                                    && q.sources@ == d.request.sources@ && q.destination@ == dest)
                                    && after is None,
                                Err(m) => a == Answer::Consumed && (after matches Some(Overlay::Destination(q))
                                    && q.request == d.request && q.input.wf() && q.input.text_view() == t
                                    && q.input.caret_view() == caret && (q.error matches Some(x) && x@ == m)),
                            }
                        }
                    }
                },
            }
        },
    }
}

/// What it takes for a click to be worked out without leaving the cell
/// space: the area fits it, and the open overlay's box can be laid out.
pub open spec fn click_ok(o: Option<Overlay>, area: Rect) -> bool {
    &&& area.in_range()
    &&& match o {
        Some(Overlay::Confirm(c)) => confirm::layout_ok(area, c),
        Some(Overlay::Conflict(p)) => conflict::layout_ok(area, p) && p.scroll + u16::MAX <= usize::MAX,
        Some(Overlay::Context(m)) => m.actions@.len() + 2 <= u16::MAX,
        _ => true,
    }
}

/// What a click at `(x, y)` in `area` does to the open overlay, and what it
/// answers. Outside the box it closes, whichever overlay it is; inside, a
/// menu line picks it, a confirmation's two footer words answer, a conflict
/// prompt's footer words answer and its rows move the reading cursor, and
/// anything else is taken and does nothing.
pub open spec fn clicked(before: Option<Overlay>, after: Option<Overlay>, x: int, y: int, area: Rect, a: Answer) -> bool {
    let closes = |ans: Answer| a == ans && after is None;
    let taken = a == Answer::Consumed && after == before;
    match before {
        None => closes(Answer::Closed),
        Some(o) => match o {
            Overlay::Context(m) => {
                let r = context::menu_rect(m.anchor, m.actions@.len() as int, area);
                if !r.holds(x, y) {
                    closes(Answer::Closed)
                } else if r.y < y < r.y + r.height - 1 && y - r.y - 1 < m.actions@.len() {
                    closes(Answer::Context(m.target, m.actions@[y - r.y - 1]))
                } else {
                    taken
                }
            },
            Overlay::Destination(_) => if centred_box(area, 24, 76, 6, 3).holds(x, y) {
                taken
            } else {
                closes(Answer::Closed)
            },
            Overlay::Help { .. } => if help_box(area).holds(x, y) {
                taken
            } else {
                closes(Answer::Closed)
            },
            Overlay::Rename(_) => if centred_box(area, 24, 60, 4, 3).holds(x, y) {
                taken
            } else {
                closes(Answer::Closed)
            },
            Overlay::Confirm(c) => if !confirm::drawn(area) || !confirm::box_rect(area, c).holds(x, y) {
                closes(Answer::Closed)
            } else if y == confirm::footer_row(area, c) && in_span(confirm::yes_span(area, c), x) {
                closes(Answer::Confirmed(c.pending))
            } else if y == confirm::footer_row(area, c) && in_span(confirm::no_span(area, c), x) {
                closes(Answer::Closed)
            } else {
                taken
            },
            Overlay::Conflict(p) => {
                let i = conflict::inner_rect(area, p);
                let foot = conflict::footer_row(area, p);
                if !conflict::drawn(area) || !conflict::box_rect(area, p).holds(x, y) {
                    closes(Answer::Closed)
                } else if y == foot && in_span(conflict::word_span(area, p, 0), x) {
                    closes(Answer::Policy { op: p.op, policy: ConflictPolicy::Overwrite })
                } else if y == foot && in_span(conflict::word_span(area, p, 1), x) {
                    closes(Answer::Policy { op: p.op, policy: ConflictPolicy::Skip })
                } else if y == foot && in_span(conflict::word_span(area, p, 2), x) {
                    closes(Answer::Policy { op: p.op, policy: ConflictPolicy::RenameNew })
                } else if y == foot && in_span(conflict::word_span(area, p, 3), x) {
                    closes(Answer::Closed)
                } else {
                    a == Answer::Consumed && (after matches Some(Overlay::Conflict(q))
                        && q.op == p.op && q.conflicts@ == p.conflicts@ && q.scroll == p.scroll
                        && q.cursor == (if i.x <= x < i.x + i.width && i.y <= y < foot
                            && p.scroll + (y - i.y) < p.conflicts@.len() {
                            p.scroll + (y - i.y)
                        } else {
                            p.cursor as int
                        }))
                }
            },
        },
    }
}

/// The help box: as much of the area as it needs, up to 80 by 38, centred.
pub open spec fn help_box(area: Rect) -> Rect {
    centred_box(area, 0, 80, 38, 0)
}

/// The help box in `area`.
pub fn help_rect(area: Rect) -> (r: Rect)
    requires
        area.in_range(),
    ensures
        r == help_box(area),
{
    centred(area, 0, 80, 38, 0)
}

/// Whether `(x, y)` is on the word spanning `[start, end)` of row `row_y`.
fn in_word(span: (u16, u16), row_y: u16, x: u16, y: u16) -> (b: bool)
    ensures
        b == (y == row_y && in_span(span, x as int)),
{
    y == row_y && x >= span.0 && x < span.1
}

impl Overlays {
    /// What is open, if anything.
    pub closed spec fn open_view(&self) -> Option<Overlay> {
        self.current
    }

    /// Nothing open.
    pub fn new() -> (o: Overlays)
        ensures
            o.open_view() is None,
    {
        Overlays { current: None }
    }

    /// Whether an overlay is open: checked first by both the key and the
    /// mouse dispatch, so input reaches it rather than the panel under it.
    pub fn is_open(&self) -> (b: bool)
        ensures
            b == self.open_view() is Some,
    {
        self.current.is_some()
    }

    /// The open overlay.
    pub fn current(&self) -> (r: Option<&Overlay>)
        ensures
            match self.open_view() {
                Some(o) => r matches Some(p) && *p == o,
                None => r is None,
            },
    {
        self.current.as_ref()
    }

    /// The open overlay, to change in place.
    pub fn current_mut(&mut self) -> (r: Option<&mut Overlay>)
        ensures
            match old(self).open_view() {
                Some(o) => (r matches Some(p) && *p == o) && final(self).open_view() is Some
                    && final(self).open_view() == Some(*final(r->0)),
                None => r is None && final(self).open_view() is None,
            },
    {
        self.current.as_mut()
    }

    /// Open the key table; whatever was open is replaced.
    pub fn open_help(&mut self)
        ensures
            final(self).open_view() == Some(Overlay::Help { scroll: 0 }),
    {
        self.current = Some(Overlay::Help { scroll: 0 });
    }

    /// Ask `c`; whatever was open is replaced.
    pub fn open_confirm(&mut self, c: confirm::Confirm)
        ensures
            final(self).open_view() == Some(Overlay::Confirm(c)),
    {
        self.current = Some(Overlay::Confirm(c));
    }

    /// A context menu over `target` at `anchor`; whatever was open is
    /// replaced.
    pub fn open_context(&mut self, target: context::Target, anchor: (u16, u16))
        ensures
            final(self).open_view() matches Some(Overlay::Context(m))
                && m.target == target && m.anchor == anchor && m.cursor == 0
                && m.actions@ == context::menu_actions(crate::text::string_views(target.sources@)),
    {
        self.current = Some(Overlay::Context(context::Menu::new(target, anchor)));
    }

    /// The destination dialogue for `request`; whatever was open is
    /// replaced.
    pub fn open_destination(&mut self, request: context::Request)
        ensures
            final(self).open_view() matches Some(Overlay::Destination(d))
                && d.request == request && d.input.wf() && d.input.text_view() == request.destination@
                && d.error is None,
    {
        self.current = Some(Overlay::Destination(context::Destination::new(request)));
    }

    /// Rename `from`; whatever was open is replaced.
    pub fn open_rename(&mut self, from: String)
        ensures
            final(self).open_view() matches Some(Overlay::Rename(r))
                && r.from@ == from@ && r.input.wf() && r.error is None
                && r.input.text_view() == (match rename::file_name_of(from@) {
                    Some(n) => n,
                    None => Seq::<char>::empty(),
                })
                && r.input.caret_view() == rename::extension_at(r.input.text_view()),
    {
        self.current = Some(Overlay::Rename(rename::Rename::new(from)));
    }

    /// Ask about the conflicts in `p`; whatever was open is replaced.
    pub fn open_conflict(&mut self, p: conflict::Prompt)
        ensures
            final(self).open_view() == Some(Overlay::Conflict(p)),
    {
        self.current = Some(Overlay::Conflict(p));
    }

    /// Close whatever is open.
    pub fn close(&mut self)
        ensures
            final(self).open_view() is None,
    {
        self.current = None;
    }

    /// Route a key to the open overlay. `esc` and `ctrl+c` are read here,
    /// ahead of every overlay's own keys.
    pub fn handle(&mut self, k: Key) -> (a: Answer)
        requires
            key_ok(old(self).open_view()),
        ensures
            handled(old(self).open_view(), final(self).open_view(), k, a),
            key_ok(final(self).open_view()),
    {
        let cur = self.current.take();
        let o = match cur {
            None => return Answer::Closed,
            Some(o) => o,
        };
        if is_ctrl_c(k) {
            return Answer::Quit;
        }
        if is_esc(k) {
            return Answer::Closed;
        }
        match o {
            Overlay::Help { scroll } => {
                let next = match k.code {
                    KeyCode::Char('j') | KeyCode::Down => Some(scroll.saturating_add(1)),
                    KeyCode::Char('k') | KeyCode::Up => Some(scroll.saturating_sub(1)),
                    KeyCode::PageDown => Some(scroll.saturating_add(10)),
                    KeyCode::PageUp => Some(scroll.saturating_sub(10)),
                    _ => None,
                };
                match next {
                    Some(s) => {
                        self.current = Some(Overlay::Help { scroll: s });
                        Answer::Consumed
                    },
                    None => Answer::Closed,
                }
            },
            Overlay::Confirm(c) => match reply(k) {
                Reply::Yes => Answer::Confirmed(c.pending),
                Reply::No => Answer::Closed,
                Reply::Quit => Answer::Quit,
                Reply::Waiting => {
                    self.current = Some(Overlay::Confirm(c));
                    Answer::Consumed
                },
            },
            Overlay::Conflict(mut p) => match p.handle(k) {
                conflict::Action::Policy(policy) => Answer::Policy { op: p.op, policy },
                conflict::Action::Close => Answer::Closed,
                conflict::Action::Taken => {
                    self.current = Some(Overlay::Conflict(p));
                    Answer::Consumed
                },
            },
            Overlay::Rename(mut r) => match r.handle(k) {
                rename::Action::Taken => {
                    self.current = Some(Overlay::Rename(r));
                    Answer::Consumed
                },
                rename::Action::Close => Answer::Closed,
                rename::Action::Renamed(to) => Answer::Renamed { from: r.from, to },
            },
            Overlay::Context(mut m) => match m.key(k) {
                Some(act) => Answer::Context(m.target, act),
                None => {
                    self.current = Some(Overlay::Context(m));
                    Answer::Consumed
                },
            },
            Overlay::Destination(mut d) => match d.handle(k) {
                Some(r) => Answer::Operation(r),
                None => {
                    self.current = Some(Overlay::Destination(d));
                    Answer::Consumed
                },
            },
        }
    }

    /// A click at `(x, y)`, while something is open.
    pub fn click(&mut self, x: u16, y: u16, area: Rect) -> (a: Answer)
        requires
            click_ok(old(self).open_view(), area),
        ensures
            clicked(old(self).open_view(), final(self).open_view(), x as int, y as int, area, a),
    {
        let o = match self.current.take() {
            None => return Answer::Closed,
            Some(o) => o,
        };
        match o {
            Overlay::Context(m) => {
                let r = m.rect(area);
                if !inside(r, x, y) {
                    Answer::Closed
                } else if y > r.y && y - r.y < r.height - 1 {
                    let i = (y - r.y - 1) as usize;
                    if i < m.actions.len() {
                        let act = m.actions[i];
                        Answer::Context(m.target, act)
                    } else {
                        self.current = Some(Overlay::Context(m));
                        Answer::Consumed
                    }
                } else {
                    self.current = Some(Overlay::Context(m));
                    Answer::Consumed
                }
            },
            Overlay::Destination(d) => {
                if inside(context::Destination::rect(area), x, y) {
                    self.current = Some(Overlay::Destination(d));
                    Answer::Consumed
                } else {
                    Answer::Closed
                }
            },
            Overlay::Help { scroll } => {
                if inside(help_rect(area), x, y) {
                    self.current = Some(Overlay::Help { scroll });
                    Answer::Consumed
                } else {
                    Answer::Closed
                }
            },
            Overlay::Rename(r) => {
                if inside(rename::rect(area), x, y) {
                    self.current = Some(Overlay::Rename(r));
                    Answer::Consumed
                } else {
                    Answer::Closed
                }
            },
            Overlay::Confirm(c) => match confirm::layout(area, &c) {
                Some(l) => {
                    if !inside(l.rect, x, y) {
                        Answer::Closed
                    } else if in_word(l.yes, l.footer_y, x, y) {
                        Answer::Confirmed(c.pending)
                    } else if in_word(l.no, l.footer_y, x, y) {
                        Answer::Closed
                    } else {
                        self.current = Some(Overlay::Confirm(c));
                        Answer::Consumed
                    }
                },
                None => Answer::Closed,
            },
            Overlay::Conflict(mut p) => match conflict::layout(area, &p) {
                Some(l) => {
                    if !inside(l.rect, x, y) {
                        Answer::Closed
                    } else {
                        match conflict::hit_footer(&l, x, y) {
                            Some(policy) => Answer::Policy { op: p.op, policy },
                            None => if conflict::hit_esc(&l, x, y) {
                                Answer::Closed
                            } else {
                                match conflict::hit_row(&l, x, y, &p) {
                                    Some(row) => {
                                        p.cursor = row;
                                    },
                                    None => {},
                                }
                                self.current = Some(Overlay::Conflict(p));
                                Answer::Consumed
                            },
                        }
                    }
                },
                None => Answer::Closed,
            },
        }
    }

    /// The wheel: only the help and a conflict prompt hold a list long
    /// enough to scroll, three rows at a time.
    pub fn scroll(&mut self, up: bool)
        ensures
            match old(self).open_view() {
                Some(Overlay::Help { scroll }) => final(self).open_view() == Some(Overlay::Help {
                    scroll: (if up {
                        if scroll < 3 { 0 } else { scroll - 3 }
                    } else {
                        if scroll + 3 > u16::MAX { u16::MAX as int } else { scroll + 3 }
                    }) as u16,
                }),
                Some(Overlay::Conflict(p)) => final(self).open_view() matches Some(Overlay::Conflict(q))
                    && q.op == p.op && q.conflicts@ == p.conflicts@ && q.cursor == p.cursor
                    && q.scroll == (if up {
                        if p.scroll < 3 { 0 } else { p.scroll - 3 }
                    } else {
                        if p.scroll + 3 > usize::MAX { usize::MAX as int } else { p.scroll + 3 }
                    }),
                _ => final(self).open_view() == old(self).open_view(),
            },
    {
        match self.current.take() {
            Some(Overlay::Help { scroll }) => {
                let s = if up { scroll.saturating_sub(3) } else { scroll.saturating_add(3) };
                self.current = Some(Overlay::Help { scroll: s });
            },
            Some(Overlay::Conflict(mut p)) => {
                p.scroll = if up { p.scroll.saturating_sub(3) } else { p.scroll.saturating_add(3) };
                self.current = Some(Overlay::Conflict(p));
            },
            other => {
                self.current = other;
            },
        }
    }
}

} // verus!

verus! {

/// The box a click is tested against for each overlay: outside it, a click
/// closes whatever is open.
pub open spec fn box_of(o: Overlay, area: Rect) -> Option<Rect> {
    match o {
        Overlay::Context(m) => Some(context::menu_rect(m.anchor, m.actions@.len() as int, area)),
        Overlay::Destination(_) => Some(centred_box(area, 24, 76, 6, 3)),
        Overlay::Help { .. } => Some(help_box(area)),
        Overlay::Rename(_) => Some(centred_box(area, 24, 60, 4, 3)),
        Overlay::Confirm(c) => if confirm::drawn(area) { Some(confirm::box_rect(area, c)) } else { None },
        Overlay::Conflict(p) => if conflict::drawn(area) { Some(conflict::box_rect(area, p)) } else { None },
    }
}

/// `esc` closes whichever overlay is open, and never quits.
pub proof fn law_escape_closes_any_overlay(before: Option<Overlay>, after: Option<Overlay>, k: Key, a: Answer)
    requires
        before is Some,
        k.code == KeyCode::Esc,
        handled(before, after, k, a),
    ensures
        a == Answer::Closed,
        after is None,
{
}

/// `ctrl+c` quits from inside any overlay, and closes it.
pub proof fn law_ctrl_c_quits_from_any_overlay(before: Option<Overlay>, after: Option<Overlay>, k: Key, a: Answer)
    requires
        before is Some,
        k.is_ctrl_c(),
        handled(before, after, k, a),
    ensures
        a == Answer::Quit,
        after is None,
{
}

/// With nothing open, a key or a click opens nothing and answers that
/// nothing is open.
pub proof fn law_nothing_open_stays_closed(
    after_key: Option<Overlay>,
    k: Key,
    a_key: Answer,
    after_click: Option<Overlay>,
    x: int,
    y: int,
    area: Rect,
    a_click: Answer,
)
    requires
        handled(None, after_key, k, a_key),
        clicked(None, after_click, x, y, area, a_click),
    ensures
        a_key == Answer::Closed,
        after_key is None,
        a_click == Answer::Closed,
        after_click is None,
{
}

/// A click outside the open overlay's box closes it, whichever overlay it
/// is.
pub proof fn law_click_outside_closes(before: Option<Overlay>, after: Option<Overlay>, x: int, y: int, area: Rect, a: Answer)
    requires
        before is Some,
        match box_of(before->0, area) {
            Some(r) => !r.holds(x, y),
            None => true,
        },
        clicked(before, after, x, y, area, a),
    ensures
        a == Answer::Closed,
        after is None,
{
}

/// Whatever an overlay answers, it is either still the one open or nothing
/// is: a key never opens a second overlay, nor swaps one kind for another.
pub proof fn law_a_key_keeps_or_closes_the_overlay(before: Option<Overlay>, after: Option<Overlay>, k: Key, a: Answer)
    requires
        handled(before, after, k, a),
    ensures
        after is None || (before is Some && same_kind(before->0, after->0)),
        after is Some ==> a == Answer::Consumed,
{
}

/// Whether two overlays are of the same kind.
pub open spec fn same_kind(a: Overlay, b: Overlay) -> bool {
    match (a, b) {
        (Overlay::Context(_), Overlay::Context(_)) => true,
        (Overlay::Destination(_), Overlay::Destination(_)) => true,
        (Overlay::Help { .. }, Overlay::Help { .. }) => true,
        (Overlay::Confirm(_), Overlay::Confirm(_)) => true,
        (Overlay::Rename(_), Overlay::Rename(_)) => true,
        (Overlay::Conflict(_), Overlay::Conflict(_)) => true,
        _ => false,
    }
}

} // verus!
