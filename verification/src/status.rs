//! The one row at the bottom: a reminder that the help exists on the left,
//! a transient middle (a fresh note, else the running operation's bar, else
//! the key hints), and a stable right-hand field. [`fields`] places them;
//! drawing and the mouse both go through it.
use vstd::prelude::*;
use crate::geometry::Rect;
use crate::text::{chars_of, copy_range, push_str, string_of};
use crate::width::{back_fit, back_fitting, clusters, text_columns, concat_all, grapheme_clusters, width_of};

verus! {

/// How long a note holds the middle field, in milliseconds.
pub const NOTE_FOR_MS: u64 = 3000;

/// How urgent a note is.
#[derive(Debug, Clone, Copy, PartialEq, Eq, Structural)]
pub enum NoteLevel {
    Info,
    Warning,
    Error,
}

/// What a click on the status line lands on.
#[derive(Debug, Clone, Copy, PartialEq, Eq, Structural)]
pub enum Hit {
    Help,
    /// The location word inside the right-hand field.
    Location,
    /// The running operation's bar, while the middle field shows it.
    Progress,
}

/// What the status line shows, already worded; times in milliseconds.
#[derive(Debug, Clone)]
pub struct StatusView {
    /// A note, how urgent it is, and when it was made.
    pub note: Option<(String, NoteLevel, u64)>,
    pub now: u64,
    /// The running operation's bar, while one runs.
    pub progress: Option<String>,
    pub hints: String,
    /// What is marked, or empty.
    pub marked: String,
    pub location: String,
    pub graphics: String,
}

/// What the middle field is showing.
#[derive(Debug, Clone, Copy, PartialEq, Eq, Structural)]
pub enum MiddleKind {
    Note(NoteLevel),
    Progress,
    Hints,
}

/// The middle field: a note younger than [`NOTE_FOR_MS`], else the bar,
/// else the hints.
pub open spec fn middle_of(v: StatusView) -> (Seq<char>, MiddleKind) {
    match v.note {
        Some((text, level, at)) if (if v.now > at { v.now - at } else { 0 }) < NOTE_FOR_MS => (text@, MiddleKind::Note(level)),
        _ => match v.progress {
            Some(p) => (p@, MiddleKind::Progress),
            None => (v.hints@, MiddleKind::Hints),
        },
    }
}

/// The pieces that say anything, joined by two spaces.
pub open spec fn joined(parts: Seq<Seq<char>>) -> Seq<char>
    decreases parts.len(),
{
    if parts.len() == 0 {
        Seq::empty()
    } else {
        let rest = joined(parts.drop_last());
        let last = parts.last();
        if last.len() == 0 {
            rest
        } else if rest.len() == 0 {
            last
        } else {
            rest + seq![' ', ' '] + last
        }
    }
}

/// The tail of `text` that fits in `width` columns, an ellipsis in front:
/// the grapheme clusters from its back that fit beside the ellipsis.
pub open spec fn elide_head_of(text: Seq<char>, width: int) -> Seq<char> {
    if text_columns(text) <= width {
        text
    } else if width < 2 {
        Seq::empty()
    } else {
        seq!['\u{2026}'] + concat_all(back_fitting(grapheme_clusters(text), width - 1))
    }
}

/// The right-hand field held to `max_w`, and the location as drawn in it:
/// the graphics word goes first, then the location loses its head; the
/// marks are never cut.
pub open spec fn right_of(v: StatusView, max_w: int) -> (Seq<char>, Seq<char>) {
    let full = joined(seq![v.marked@, v.location@, v.graphics@]);
    let without = joined(seq![v.marked@, v.location@]);
    if text_columns(full) <= max_w {
        (full, v.location@)
    } else if text_columns(without) <= max_w {
        (without, v.location@)
    } else {
        let marked_w: int = if v.marked@.len() == 0 { 0 } else { text_columns(v.marked@) as int + 2 };
        let room = if max_w > marked_w { max_w - marked_w } else { 0 };
        let loc = elide_head_of(v.location@, room);
        (joined(seq![v.marked@, loc]), loc)
    }
}

fn joined_of(parts: &Vec<Vec<char>>) -> (out: Vec<char>)
    ensures
        out@ == joined(crate::text::row_views(parts@)),
{
    let ghost ps = crate::text::row_views(parts@);
    let mut out: Vec<char> = Vec::new();
    let mut i: usize = 0;
    while i < parts.len()
        invariant
            ps == crate::text::row_views(parts@),
            i <= parts@.len(),
            out@ == joined(ps.take(i as int)),
        decreases parts@.len() - i,
    {
        assert(ps.take(i + 1).drop_last() =~= ps.take(i as int));
        assert(ps.take(i + 1).last() == parts@[i as int]@);
        let p = &parts[i];
        if p.len() > 0 {
            let ghost before = out@;
            if out.len() > 0 {
                out.push(' ');
                out.push(' ');
            }
            let mut k: usize = 0;
            let ghost mid = out@;
            while k < p.len()
                invariant
                    k <= p@.len(),
                    out@ == mid + p@.take(k as int),
                decreases p@.len() - k,
            {
                out.push(p[k]);
                assert(p@.take(k + 1) =~= p@.take(k as int).push(p@[k as int]));
                k = k + 1;
            }
            assert(p@.take(p@.len() as int) =~= p@);
            proof {
                if before.len() == 0 {
                    assert(out@ =~= p@);
                } else {
                    assert(out@ =~= before + seq![' ', ' '] + p@);
                }
            }
        }
        i = i + 1;
    }
    assert(ps.take(parts@.len() as int) =~= ps);
    out
}

/// The tail of `text` that fits in `width` columns.
pub fn elide_head(text: &[char], width: u16) -> (out: Vec<char>)
    ensures
        out@ == elide_head_of(text@, width as int),
{
    if width_of(text) <= width as usize {
        let out = copy_range(text, 0, text.len());
        assert(out@ =~= text@);
        return out;
    }
    if width < 2 {
        return Vec::new();
    }
    let keep = (width - 1) as usize;
    let mut out: Vec<char> = vec!['\u{2026}'];
    let cs = clusters(text);
    let tail = back_fit(&cs, keep);
    let mut k: usize = 0;
    while k < tail.len()
        invariant
            k <= tail@.len(),
            out@ == seq!['\u{2026}'] + tail@.take(k as int),
        decreases tail@.len() - k,
    {
        out.push(tail[k]);
        assert(tail@.take(k + 1) =~= tail@.take(k as int).push(tail@[k as int]));
        k = k + 1;
    }
    assert(tail@.take(tail@.len() as int) =~= tail@);
    out
}

impl StatusView {
    /// The middle field, and what it shows.
    pub fn middle(&self) -> (r: (String, MiddleKind))
        ensures
            r.0@ == middle_of(*self).0,
            r.1 == middle_of(*self).1,
    {
        match &self.note {
            Some((text, level, at)) => {
                let age = if self.now > *at { self.now - *at } else { 0 };
                if age < NOTE_FOR_MS {
                    return (text.clone(), MiddleKind::Note(*level));
                }
            },
            None => {},
        }
        match &self.progress {
            Some(p) => (p.clone(), MiddleKind::Progress),
            None => (self.hints.clone(), MiddleKind::Hints),
        }
    }

    /// The right-hand field held to `max_w`, and the location as drawn.
    pub fn right(&self, max_w: u16) -> (r: (String, String))
        ensures
            r.0@ == right_of(*self, max_w as int).0,
            r.1@ == right_of(*self, max_w as int).1,
    {
        let m = chars_of(self.marked.as_str());
        let l = chars_of(self.location.as_str());
        let g = chars_of(self.graphics.as_str());
        let all = vec![m.clone(), l.clone(), g];
        let full = joined_of(&all);
        proof {
            assert(crate::text::row_views(all@) =~= seq![self.marked@, self.location@, self.graphics@]);
        }
        if width_of(full.as_slice()) <= max_w as usize {
            return (string_of(full.as_slice()), self.location.clone());
        }
        let two = vec![m.clone(), l.clone()];
        let without = joined_of(&two);
        proof {
            assert(crate::text::row_views(two@) =~= seq![self.marked@, self.location@]);
        }
        if width_of(without.as_slice()) <= max_w as usize {
            return (string_of(without.as_slice()), self.location.clone());
        }
        let marked_w: u128 = if m.len() == 0 { 0 } else { width_of(m.as_slice()) as u128 + 2 };
        let room: u16 = if (max_w as u128) > marked_w { (max_w as u128 - marked_w) as u16 } else { 0 };
        let loc = elide_head(l.as_slice(), room);
        let last = vec![m, loc.clone()];
        let j = joined_of(&last);
        proof {
            assert(crate::text::row_views(last@) =~= seq![self.marked@, loc@]);
        }
        (string_of(j.as_slice()), string_of(loc.as_slice()))
    }
}

/// Where each field of the status line sits.
#[derive(Debug, Clone, Copy, PartialEq, Eq, Structural)]
pub struct Fields {
    pub help: Rect,
    /// Whichever of note, bar and hints is shown.
    pub middle: Rect,
    /// The location word inside the right-hand field, when there is one.
    pub location: Rect,
}

/// The fewest columns the middle field keeps against a long right-hand
/// one.
pub const MIDDLE_MIN: u16 = 24;

/// How wide the right-hand field may grow in an area `width` wide with the
/// help `help_w` wide: the middle keeps [`MIDDLE_MIN`], or half what is left.
pub open spec fn max_right_of(width: int, help_w: int) -> int {
    let a = if width > help_w + 2 { width - help_w - 2 } else { 0 };
    let b = if a > MIDDLE_MIN { a - MIDDLE_MIN } else { 0 };
    if b > a / 2 { b } else { a / 2 }
}

/// Where each field of the status line sits in `area`.
pub open spec fn fields_of(area: Rect, v: StatusView) -> Fields {
    let z = Rect { x: area.x, y: area.y, width: 0, height: 0 };
    if area.height == 0 || area.width == 0 {
        Fields { help: z, middle: z, location: z }
    } else {
        let help_w = if 6 < area.width { 6 } else { area.width as int };
        let a = if area.width > help_w + 2 { area.width - help_w - 2 } else { 0 };
        let (right, loc) = right_of(v, max_right_of(area.width as int, help_w));
        let right_w = if text_columns(right) < a { text_columns(right) as int } else { a };
        let right_x = area.x + area.width - right_w;
        let location = if loc.len() == 0 || right_w == 0 {
            z
        } else {
            let lead: int = if v.marked@.len() == 0 { 0 } else { text_columns(v.marked@) as int + 2 };
            let lead_w = if lead < right_w { lead } else { right_w };
            let loc_w = if text_columns(loc) < right_w - lead_w { text_columns(loc) as int } else { right_w - lead_w };
            Rect { x: (right_x + lead_w) as u16, y: area.y, width: loc_w as u16, height: 1 }
        };
        let reserved = if right_w > 0 { right_w + 2 } else { 0 };
        let middle_w = if a > reserved { a - reserved } else { 0 };
        Fields {
            help: Rect { x: area.x, y: area.y, width: help_w as u16, height: 1 },
            middle: Rect { x: (area.x + help_w + 2) as u16, y: area.y, width: middle_w as u16, height: if middle_w > 0 { 1 } else { 0 } },
            location,
        }
    }
}

/// Where each field of the status line sits in `area`.
pub fn fields(area: Rect, v: &StatusView) -> (f: Fields)
    requires
        area.x + area.width + 2 <= u16::MAX,
    ensures
        f == fields_of(area, *v),
{
    let z = Rect { x: area.x, y: area.y, width: 0, height: 0 };
    if area.height == 0 || area.width == 0 {
        return Fields { help: z, middle: z, location: z };
    }
    let help_w: u16 = if 6 < area.width { 6 } else { area.width };
    let a: u16 = if area.width > help_w + 2 { area.width - help_w - 2 } else { 0 };
    let b: u16 = if a > MIDDLE_MIN { a - MIDDLE_MIN } else { 0 };
    let max_right: u16 = if b > a / 2 { b } else { a / 2 };
    let (right, loc) = v.right(max_right);
    let rn = width_of(chars_of(right.as_str()).as_slice());
    let lc = chars_of(loc.as_str());
    let right_w: u16 = if rn < a as usize { rn as u16 } else { a };
    let right_x: u16 = area.x + area.width - right_w;
    let location = if lc.len() == 0 || right_w == 0 {
        z
    } else {
        let ln = width_of(lc.as_slice());
        let mc = chars_of(v.marked.as_str());
        let lead: u128 = if mc.len() == 0 { 0 } else { width_of(mc.as_slice()) as u128 + 2 };
        let lead_w: u16 = if lead < right_w as u128 { lead as u16 } else { right_w };
        let loc_w: u16 = if ln < (right_w - lead_w) as usize { ln as u16 } else { right_w - lead_w };
        Rect { x: right_x + lead_w, y: area.y, width: loc_w, height: 1 }
    };
    let reserved: u16 = if right_w > 0 { right_w + 2 } else { 0 };
    let middle_w: u16 = if a > reserved { a - reserved } else { 0 };
    Fields {
        help: Rect { x: area.x, y: area.y, width: help_w, height: 1 },
        middle: Rect { x: area.x + help_w + 2, y: area.y, width: middle_w, height: if middle_w > 0 { 1 } else { 0 } },
        location,
    }
}

/// Whether a click at `(x, y)` lands on the one-row field `r`.
pub open spec fn on_field(r: Rect, x: int, y: int) -> bool {
    r.width > 0 && y == r.y && r.x <= x < r.x + r.width
}

/// What a click at `(x, y)` on the status line lands on: the help, the
/// location, or the bar while the middle field shows it.
pub open spec fn hit_of(area: Rect, v: StatusView, x: int, y: int) -> Option<Hit> {
    let f = fields_of(area, v);
    if on_field(f.help, x, y) {
        Some(Hit::Help)
    } else if on_field(f.location, x, y) {
        Some(Hit::Location)
    } else if on_field(f.middle, x, y) && middle_of(v).1 == MiddleKind::Progress {
        Some(Hit::Progress)
    } else {
        None
    }
}

fn on(r: Rect, x: u16, y: u16) -> (b: bool)
    ensures
        b == on_field(r, x as int, y as int),
{
    r.width > 0 && y == r.y && x >= r.x && (x - r.x) < r.width
}

/// What a click on the status line lands on.
pub fn hit(area: Rect, v: &StatusView, x: u16, y: u16) -> (r: Option<Hit>)
    requires
        area.x + area.width + 2 <= u16::MAX,
    ensures
        r == hit_of(area, *v, x as int, y as int),
{
    let f = fields(area, v);
    if on(f.help, x, y) {
        return Some(Hit::Help);
    }
    if on(f.location, x, y) {
        return Some(Hit::Location);
    }
    if on(f.middle, x, y) && v.middle().1 == MiddleKind::Progress {
        return Some(Hit::Progress);
    }
    None
}

} // verus!
