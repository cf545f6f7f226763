//! What to do about names already at the destination. The answer is one
//! policy for the whole operation; `j`/`k` only move the reading cursor over
//! the list of what collided.
use vstd::prelude::*;
use crate::geometry::Rect;
use crate::keys::{Key, KeyCode};
use crate::ops::{Conflict, ConflictPolicy, OpId};
use crate::overlays::confirm::clamp;

verus! {

/// What a key did.
#[derive(Debug, Clone, Copy, PartialEq, Eq, Structural)]
pub enum Action {
    Taken,
    Close,
    /// Applies to every conflict of the prompt at once.
    Policy(ConflictPolicy),
}

/// The conflicts one operation's plan found, and where the reading cursor is.
#[derive(Debug)]
pub struct Prompt {
    pub op: OpId,
    pub conflicts: Vec<Conflict>,
    pub cursor: usize,
    pub scroll: usize,
}

/// What `key` answers, when it answers: `o`, `s` and `r`.
pub open spec fn policy_of(key: Key) -> Option<ConflictPolicy> {
    match key.code {
        KeyCode::Char(c) => if c == 'o' {
            Some(ConflictPolicy::Overwrite)
        } else if c == 's' {
            Some(ConflictPolicy::Skip)
        } else if c == 'r' {
            Some(ConflictPolicy::RenameNew)
        } else {
            None
        },
        _ => None,
    }
}

/// How far `key` moves the reading cursor: `j`/down one on, `k`/up one back.
pub open spec fn step_of(key: Key) -> int {
    match key.code {
        KeyCode::Char(c) => if c == 'j' { 1 } else if c == 'k' { -1 } else { 0 },
        KeyCode::Down => 1,
        KeyCode::Up => -1,
        _ => 0,
    }
}

/// The cursor moved by `delta` over `n` rows, kept on a row; unmoved when
/// there are none.
pub open spec fn moved(cursor: int, delta: int, n: int) -> int {
    if n == 0 { cursor } else { clamp(cursor + delta, 0, n - 1) }
}

impl Prompt {
    pub fn new(op: OpId, conflicts: Vec<Conflict>) -> (p: Prompt)
        ensures
            p.op == op,
            p.conflicts@ == conflicts@,
            p.cursor == 0,
            p.scroll == 0,
    {
        Prompt { op, conflicts, cursor: 0, scroll: 0 }
    }

    /// `o`/`s`/`r` answer; `j`/`k` and the arrows move the reading cursor;
    /// every other key is taken and does nothing.
    pub fn handle(&mut self, key: Key) -> (a: Action)
        ensures
            final(self).op == old(self).op,
            final(self).conflicts@ == old(self).conflicts@,
            final(self).scroll == old(self).scroll,
            a == (match policy_of(key) {
                Some(p) => Action::Policy(p),
                None => Action::Taken,
            }),
            final(self).cursor == (if policy_of(key) is Some || step_of(key) == 0 {
                old(self).cursor as int
            } else {
                moved(old(self).cursor as int, step_of(key), old(self).conflicts@.len() as int)
            }),
    {
        match key.code {
            KeyCode::Char('o') => Action::Policy(ConflictPolicy::Overwrite),
            KeyCode::Char('s') => Action::Policy(ConflictPolicy::Skip),
            KeyCode::Char('r') => Action::Policy(ConflictPolicy::RenameNew),
            KeyCode::Char('j') | KeyCode::Down => {
                self.move_cursor(1);
                Action::Taken
            },
            KeyCode::Char('k') | KeyCode::Up => {
                self.move_cursor(-1);
                Action::Taken
            },
            _ => Action::Taken,
        }
    }

    /// Move the reading cursor by `delta`, kept on a row.
    fn move_cursor(&mut self, delta: isize)
        ensures
            final(self).op == old(self).op,
            final(self).conflicts@ == old(self).conflicts@,
            final(self).scroll == old(self).scroll,
            final(self).cursor == moved(old(self).cursor as int, delta as int, old(self).conflicts@.len() as int),
    {
        if self.conflicts.len() == 0 {
            return;
        }
        let last = self.conflicts.len() - 1;
        let to: i128 = self.cursor as i128 + delta as i128;
        self.cursor = if to < 0 {
            0
        } else if to > last as i128 {
            last
        } else {
            to as usize
        };
    }
}

/// Where the box lands and where each of the four footer words is.
#[derive(Debug, Clone, Copy, PartialEq, Eq)]
pub struct Layout {
    pub rect: Rect,
    pub inner: Rect,
    pub footer_y: u16,
    pub o: (u16, u16),
    pub s: (u16, u16),
    pub r: (u16, u16),
    pub esc: (u16, u16),
}

/// The box's width in an area `width` cells wide: four short of the area,
/// kept between 30 and 70, never wider than the area.
pub open spec fn box_width(width: int) -> int {
    let w = if width >= 4 { width - 4 } else { 0 };
    let w = clamp(w, 30, 70);
    if w > width { width } else { w }
}

/// The box's height for `n` conflicts in an area `height` rows high.
pub open spec fn box_height(n: int, height: int) -> int {
    clamp((if n < 1 { 1 } else { n }) + 3, 5, height)
}

/// Whether `layout` can work the box out: the area fits the cell space with
/// room for the footer words, an area drawn in at all is five rows high, and
/// the list's length fits a row count.
pub open spec fn layout_ok(area: Rect, p: Prompt) -> bool {
    &&& area.in_range()
    &&& area.x + area.width + 60 <= u16::MAX
    &&& (area.width == 0 || area.height == 0 || area.height >= 5)
    &&& p.conflicts@.len() + 3 <= u16::MAX
}

/// Whether the prompt is drawn in `area` at all.
pub open spec fn drawn(area: Rect) -> bool {
    !(area.width == 0 || area.height == 0 || box_width(area.width as int) < 12)
}

/// Where the box lands in `area`.
pub open spec fn box_rect(area: Rect, p: Prompt) -> Rect {
    let w = box_width(area.width as int);
    let h = box_height(p.conflicts@.len() as int, area.height as int);
    Rect {
        x: (area.x + (area.width - w) / 2) as u16,
        y: (area.y + (area.height - h) / 2) as u16,
        width: w as u16,
        height: h as u16,
    }
}

/// The inside of the box, within its border.
pub open spec fn inner_rect(area: Rect, p: Prompt) -> Rect {
    let r = box_rect(area, p);
    Rect { x: (r.x + 1) as u16, y: (r.y + 1) as u16, width: (r.width - 2) as u16, height: (r.height - 2) as u16 }
}

/// The footer row, the box's last row inside the border.
pub open spec fn footer_row(area: Rect, p: Prompt) -> int {
    let i = inner_rect(area, p);
    i.y + i.height - 1
}

/// The columns of the `n`th footer word, counted from the inside's left
/// edge: `[o] overwrite`, `[s] skip`, `[r] rename new`, `[esc] leave
/// queued`, two cells apart.
pub open spec fn word_span(area: Rect, p: Prompt, n: int) -> (u16, u16) {
    let x = inner_rect(area, p).x;
    if n == 0 {
        (x, (x + 13) as u16)
    } else if n == 1 {
        ((x + 15) as u16, (x + 23) as u16)
    } else if n == 2 {
        ((x + 25) as u16, (x + 39) as u16)
    } else {
        ((x + 41) as u16, (x + 59) as u16)
    }
}

/// Lay the prompt out in `area`. `None` when the area is empty or the box
/// would be narrower than twelve cells.
pub fn layout(area: Rect, p: &Prompt) -> (r: Option<Layout>)
    requires
        layout_ok(area, *p),
    ensures
        r is None <==> !drawn(area),
        r matches Some(l) ==> {
            &&& l.rect == box_rect(area, *p)
            &&& l.inner == inner_rect(area, *p)
            &&& l.footer_y == footer_row(area, *p)
            &&& l.o == word_span(area, *p, 0)
            &&& l.s == word_span(area, *p, 1)
            &&& l.r == word_span(area, *p, 2)
            &&& l.esc == word_span(area, *p, 3)
        },
{
    if area.width == 0 || area.height == 0 {
        return None;
    }
    let a = if area.width >= 4 { area.width - 4 } else { 0 };
    let b = if a < 30 { 30 } else if a > 70 { 70 } else { a };
    let w: u16 = if b > area.width { area.width } else { b };
    let n = p.conflicts.len();
    let rows: u16 = if n < 1 { 1 } else { n as u16 };
    let want: u16 = rows + 3;
    let h: u16 = if want < 5 { 5 } else if want > area.height { area.height } else { want };
    if w < 12 {
        return None;
    }
    let rect = Rect {
        x: area.x + (area.width - w) / 2,
        y: area.y + (area.height - h) / 2,
        width: w,
        height: h,
    };
    let inner = Rect { x: rect.x + 1, y: rect.y + 1, width: w - 2, height: h - 2 };
    let footer_y = inner.y + inner.height - 1;
    let x = inner.x;
    Some(Layout {
        rect,
        inner,
        footer_y,
        o: (x, x + 13),
        s: (x + 15, x + 23),
        r: (x + 25, x + 39),
        esc: (x + 41, x + 59),
    })
}

/// Whether column `x` lies in the word spanning `span`.
pub open spec fn in_span(span: (u16, u16), x: int) -> bool {
    span.0 <= x < span.1
}

/// The policy whose footer word the cell `(x, y)` is on.
pub fn hit_footer(l: &Layout, x: u16, y: u16) -> (r: Option<ConflictPolicy>)
    ensures
        r == (if y != l.footer_y {
            None
        } else if in_span(l.o, x as int) {
            Some(ConflictPolicy::Overwrite)
        } else if in_span(l.s, x as int) {
            Some(ConflictPolicy::Skip)
        } else if in_span(l.r, x as int) {
            Some(ConflictPolicy::RenameNew)
        } else {
            None
        }),
{
    if y != l.footer_y {
        return None;
    }
    if x >= l.o.0 && x < l.o.1 {
        Some(ConflictPolicy::Overwrite)
    } else if x >= l.s.0 && x < l.s.1 {
        Some(ConflictPolicy::Skip)
    } else if x >= l.r.0 && x < l.r.1 {
        Some(ConflictPolicy::RenameNew)
    } else {
        None
    }
}

/// Whether the cell `(x, y)` is on the footer's `esc` word.
pub fn hit_esc(l: &Layout, x: u16, y: u16) -> (b: bool)
    ensures
        b == (y == l.footer_y && in_span(l.esc, x as int)),
{
    y == l.footer_y && x >= l.esc.0 && x < l.esc.1
}

/// The row of the list a click at `(x, y)` lands on, counting the rows
/// scrolled past. `None` outside the list or past its end.
pub fn hit_row(l: &Layout, x: u16, y: u16, p: &Prompt) -> (r: Option<usize>)
    requires
        l.inner.y <= y < l.footer_y ==> p.scroll + (y - l.inner.y) <= usize::MAX,
    ensures
        r == (if l.inner.x <= x < l.inner.x + l.inner.width && l.inner.y <= y < l.footer_y
            && p.scroll + (y - l.inner.y) < p.conflicts@.len() {
            Some((p.scroll + (y - l.inner.y)) as usize)
        } else {
            None
        }),
{
    if x < l.inner.x || (x - l.inner.x) >= l.inner.width {
        return None;
    }
    if y < l.inner.y || y >= l.footer_y {
        return None;
    }
    let row = p.scroll + (y - l.inner.y) as usize;
    if row < p.conflicts.len() {
        Some(row)
    } else {
        None
    }
}

} // verus!
