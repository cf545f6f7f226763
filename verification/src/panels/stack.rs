//! The stack module: the levels drilled through, and the one being looked
//! at. [`split`] decides how tall each part of the body is, and [`hit`]
//! tests a click against the same split.
use vstd::prelude::*;
use crate::geometry::Rect;
use crate::text::{chars_of, copy_range, push_str, string_of, string_views};
use crate::width::{text_columns, width_of};

verus! {

/// Whether a row carries a mark glyph, and which. `NotShown` is "the
/// column does not apply here", not "unmarked".
#[derive(Debug, Clone, Copy, PartialEq, Eq, Structural)]
pub enum Mark {
    Marked,
    Unmarked,
    NotShown,
}

/// What kind of entry a row is.
#[derive(Debug, Clone, Copy, PartialEq, Eq, Structural)]
pub enum Kind {
    Dir,
    Symlink { broken: bool },
    Exec,
    Hidden,
    File,
}

/// One entry of the listing, already worded.
#[derive(Debug, Clone)]
pub struct Row {
    pub mark: Mark,
    pub name: String,
    pub kind: Kind,
    /// `"toml"`, `"dir"`, `"link"`; dropped below 70 columns.
    pub ext: String,
    /// `"1.2 KB"` or `"-"`.
    pub size: String,
    pub time: String,
}

/// One folded parent level.
#[derive(Debug, Clone)]
pub struct Crumb {
    pub name: String,
    pub count: Option<usize>,
}

/// Below this many list rows the crumb trail squeezes to one line.
pub const LIST_ROWS_MIN: u16 = 7;

/// The body divided: the crumb trail, the open level's rule, the listing.
#[derive(Debug, Clone, Copy, PartialEq, Eq, Structural)]
pub struct Split {
    pub crumbs: Rect,
    pub squeezed: bool,
    pub rule: Rect,
    pub list: Rect,
}

/// `a` less `b`, or nought.
pub open spec fn sat_sub(a: int, b: int) -> int {
    if a > b { a - b } else { 0 }
}

/// The smaller of `a` and `b`.
pub open spec fn min(a: int, b: int) -> int {
    if a < b { a } else { b }
}

/// Whether the trail squeezes to one line: there is more than one crumb,
/// and a row each would leave the listing under [`LIST_ROWS_MIN`].
pub open spec fn squeezes(body: Rect, depth: int, fold_rows: int) -> bool {
    let d = min(depth, u16::MAX as int);
    let full = min(d, fold_rows);
    d > 1 && sat_sub(body.height as int, 1 + full) < LIST_ROWS_MIN
}

/// The split of `body` for a trail `depth` crumbs deep, each given a row of
/// its own up to `fold_rows`, unless the trail squeezes.
pub open spec fn split_of(body: Rect, depth: int, fold_rows: int) -> Split {
    if body.height == 0 || body.width == 0 {
        let z = Rect { x: body.x, y: body.y, width: 0, height: 0 };
        Split { crumbs: z, squeezed: false, rule: z, list: z }
    } else {
        let d = min(depth, u16::MAX as int);
        let full = min(d, fold_rows);
        let sq = squeezes(body, depth, fold_rows);
        let ch = min(if sq { 1 } else { full }, body.height as int);
        let rh = min(1, sat_sub(body.height as int, ch));
        Split {
            crumbs: Rect { x: body.x, y: body.y, width: body.width, height: ch as u16 },
            squeezed: sq,
            rule: Rect { x: body.x, y: (body.y + ch) as u16, width: body.width, height: rh as u16 },
            list: Rect { x: body.x, y: (body.y + ch + rh) as u16, width: body.width, height: sat_sub(body.height as int, ch + rh) as u16 },
        }
    }
}

/// Divide the body into the crumb trail, the rule, and the listing.
pub fn split(body: Rect, depth: usize, fold_rows: u16) -> (s: Split)
    requires
        body.in_range(),
        !(depth >= u16::MAX && fold_rows == u16::MAX),
    ensures
        s == split_of(body, depth as int, fold_rows as int),
{
    if body.height == 0 || body.width == 0 {
        let z = Rect { x: body.x, y: body.y, width: 0, height: 0 };
        return Split { crumbs: z, squeezed: false, rule: z, list: z };
    }
    let d: u16 = if depth > 65535 { 65535 } else { depth as u16 };
    let full: u16 = if d < fold_rows { d } else { fold_rows };
    let rule_rows: u16 = 1;
    let taken: u16 = rule_rows + full;
    let list_if_full: u16 = if body.height > taken { body.height - taken } else { 0 };
    let squeezed = d > 1 && list_if_full < LIST_ROWS_MIN;
    let want: u16 = if squeezed { 1 } else { full };
    let ch: u16 = if want < body.height { want } else { body.height };
    let left: u16 = body.height - ch;
    let rh: u16 = if 1 < left { 1 } else { left };
    let crumbs = Rect { x: body.x, y: body.y, width: body.width, height: ch };
    let rule = Rect { x: body.x, y: body.y + ch, width: body.width, height: rh };
    let list = Rect { x: body.x, y: body.y + ch + rh, width: body.width, height: body.height - ch - rh };
    Split { crumbs, squeezed, rule, list }
}

/// How many listing rows the stack module's `body` shows at `depth`.
pub fn visible_rows(body: Rect, depth: usize, fold_rows: u16) -> (n: usize)
    requires
        body.in_range(),
        !(depth >= u16::MAX && fold_rows == u16::MAX),
    ensures
        n == split_of(body, depth as int, fold_rows as int).list.height,
{
    split(body, depth, fold_rows).list.height as usize
}

/// The trail, the rule and the listing tile the body, top to bottom, and a
/// squeezed trail is one line.
pub proof fn law_split_tiles_the_body(body: Rect, depth: int, fold_rows: int)
    requires
        body.in_range(),
        body.height > 0,
        body.width > 0,
        0 <= depth,
        0 <= fold_rows <= u16::MAX,
    ensures
        ({
            let s = split_of(body, depth, fold_rows);
            &&& s.crumbs.y == body.y
            &&& s.rule.y == s.crumbs.y + s.crumbs.height
            &&& s.list.y == s.rule.y + s.rule.height
            &&& s.crumbs.height + s.rule.height + s.list.height == body.height
            &&& s.squeezed ==> s.crumbs.height == 1
            &&& s.rule.height == 1 || body.height == s.crumbs.height
        }),
{
}

/// Which crumbs get a row of their own: the most recent `fold_rows - 1`
/// when there are more than `fold_rows`, the older ones folded into one row
/// at the top; all of them otherwise. How many are folded away, and the
/// index the shown ones start at.
pub open spec fn shown_crumbs(n: int, fold_rows: int) -> (int, int) {
    if fold_rows == 0 || n <= fold_rows {
        (0, 0)
    } else {
        (n - (fold_rows - 1), n - (fold_rows - 1))
    }
}

/// How many crumbs are folded away, and where the shown ones start.
pub fn visible_crumbs(n: usize, fold_rows: u16) -> (r: (usize, usize))
    ensures
        r.0 == shown_crumbs(n as int, fold_rows as int).0,
        r.1 == shown_crumbs(n as int, fold_rows as int).1,
{
    let f = fold_rows as usize;
    if f == 0 || n <= f {
        return (0, 0);
    }
    let keep = f - 1;
    (n - keep, n - keep)
}

/// The arrow the trail's first line starts with, and the separator between
/// squeezed crumbs.
pub open spec fn crumb_lead() -> Seq<char> {
    seq!['\u{25b8}', ' ']
}

pub open spec fn squeeze_sep() -> Seq<char> {
    seq![' ', '\u{203a}', ' ']
}

/// The squeezed line: the arrow, then the names joined by ` › `.
pub open spec fn squeezed_line(names: Seq<Seq<char>>) -> Seq<char>
    decreases names.len(),
{
    if names.len() == 0 {
        crumb_lead()
    } else if names.len() == 1 {
        crumb_lead() + names[0]
    } else {
        squeezed_line(names.drop_last()) + squeeze_sep() + names.last()
    }
}

/// Where the `i`th name starts on the squeezed line drawn from column `x0`.
pub open spec fn crumb_start(x0: int, names: Seq<Seq<char>>, i: int) -> int
    decreases i,
{
    if i <= 0 {
        x0 + lead_w()
    } else {
        crumb_start(x0, names, i - 1) + text_columns(names[i - 1]) + sep_w()
    }
}

/// The columns the trail's arrow takes.
pub open spec fn lead_w() -> int {
    text_columns(crumb_lead()) as int
}

/// The columns the separator between squeezed crumbs takes.
pub open spec fn sep_w() -> int {
    text_columns(squeeze_sep()) as int
}

/// The names of the crumbs, in order.
pub open spec fn crumb_names(c: Seq<Crumb>) -> Seq<Seq<char>> {
    c.map_values(|k: Crumb| k.name@)
}

proof fn lemma_crumb_start_monotone(x0: int, names: Seq<Seq<char>>, i: int, j: int)
    requires
        0 <= i <= j,
    ensures
        crumb_start(x0, names, i) <= crumb_start(x0, names, j),
    decreases j,
{
    if i < j {
        lemma_crumb_start_monotone(x0, names, i, j - 1);
    }
}

/// Whether the squeezed trail drawn from column `x0` ends inside the cell
/// space, as [`squeeze_layout`] and [`hit`] need it to.
pub fn trail_fits(x0: u16, crumbs: &Vec<Crumb>) -> (b: bool)
    ensures
        b == (crumb_start(x0 as int, crumb_names(crumbs@), crumbs@.len() as int) <= u16::MAX),
{
    let ghost names = crumb_names(crumbs@);
    let lead: Vec<char> = vec!['\u{25b8}', ' '];
    assert(lead@ =~= crumb_lead());
    let sep: Vec<char> = vec![' ', '\u{203a}', ' '];
    assert(sep@ =~= squeeze_sep());
    let lw = width_of(lead.as_slice());
    let sw = width_of(sep.as_slice());
    let max: usize = 65535;
    if lw > max - x0 as usize {
        proof {
            lemma_crumb_start_monotone(x0 as int, names, 0, crumbs@.len() as int);
        }
        return false;
    }
    let mut x: usize = x0 as usize + lw;
    let mut i: usize = 0;
    while i < crumbs.len()
        invariant
            names == crumb_names(crumbs@),
            i <= crumbs@.len(),
            lw == lead_w(),
            sw == sep_w(),
            max == 65535,
            x == crumb_start(x0 as int, names, i as int),
            x <= max,
        decreases crumbs@.len() - i,
    {
        let name = chars_of(crumbs[i].name.as_str());
        let w = width_of(name.as_slice());
        assert(crumb_start(x0 as int, names, i + 1) == x + w + sw);
        if w > max - x || sw > max - x - w {
            proof {
                lemma_crumb_start_monotone(x0 as int, names, i + 1, crumbs@.len() as int);
            }
            return false;
        }
        x = x + w + sw;
        i = i + 1;
    }
    true
}

/// The squeezed line's text, and for each crumb its index, the column it
/// starts at and its width.
pub fn squeeze_layout(x0: u16, crumbs: &Vec<Crumb>) -> (r: (String, Vec<(usize, u16, u16)>))
    requires
        crumb_start(x0 as int, crumb_names(crumbs@), crumbs@.len() as int) <= u16::MAX,
    ensures
        r.0@ == squeezed_line(crumb_names(crumbs@)),
        r.1@.len() == crumbs@.len(),
        forall|i: int| 0 <= i < crumbs@.len() ==> #[trigger] r.1@[i] == (
            i as usize,
            crumb_start(x0 as int, crumb_names(crumbs@), i) as u16,
            text_columns(crumbs@[i].name@) as u16,
        ),
{
    let ghost names = crumb_names(crumbs@);
    proof {
        lemma_crumb_start_monotone(x0 as int, names, 0, crumbs@.len() as int);
    }
    let mut line: Vec<char> = vec!['\u{25b8}', ' '];
    assert(line@ =~= crumb_lead());
    let lw = width_of(line.as_slice());
    let sep: Vec<char> = vec![' ', '\u{203a}', ' '];
    assert(sep@ =~= squeeze_sep());
    let sw = width_of(sep.as_slice());
    let mut boxes: Vec<(usize, u16, u16)> = Vec::new();
    let mut x: u16 = (x0 as usize + lw) as u16;
    let mut i: usize = 0;
    while i < crumbs.len()
        invariant
            names == crumb_names(crumbs@),
            names.len() == crumbs@.len(),
            crumb_start(x0 as int, names, crumbs@.len() as int) <= u16::MAX,
            i <= crumbs@.len(),
            i > 0 ==> line@ == squeezed_line(names.take(i as int)),
            i == 0 ==> line@ == crumb_lead(),
            lw == lead_w(),
            sw == sep_w(),
            sep@ == squeeze_sep(),
            x == (if i == 0 { x0 + lead_w() } else { crumb_start(x0 as int, names, i as int) - sep_w() }),
            boxes@.len() == i,
            forall|j: int| 0 <= j < i ==> #[trigger] boxes@[j] == (
                j as usize,
                crumb_start(x0 as int, names, j) as u16,
                text_columns(crumbs@[j].name@) as u16,
            ),
        decreases crumbs@.len() - i,
    {
        proof {
            lemma_crumb_start_monotone(x0 as int, names, i + 1, crumbs@.len() as int);
            lemma_crumb_start_monotone(x0 as int, names, 0, i as int);
            assert(crumb_start(x0 as int, names, i + 1) == crumb_start(x0 as int, names, i as int) + text_columns(names[i as int]) + sep_w());
            if i > 0 {
                assert(names.take(i + 1).drop_last() =~= names.take(i as int));
            } else {
                assert(names.take(1).len() == 1);
            }
        }
        let ghost line0 = line@;
        if i > 0 {
            let mut q: usize = 0;
            let ghost l1 = line@;
            while q < sep.len()
                invariant
                    q <= sep@.len(),
                    line@ == l1 + sep@.take(q as int),
                decreases sep@.len() - q,
            {
                line.push(sep[q]);
                assert(sep@.take(q + 1) =~= sep@.take(q as int).push(sep@[q as int]));
                q = q + 1;
            }
            assert(sep@.take(sep@.len() as int) =~= sep@);
            x = (x as usize + sw) as u16;
        }
        let name = chars_of(crumbs[i].name.as_str());
        assert(name@ == names[i as int]);
        let w = width_of(name.as_slice()) as u16;
        boxes.push((i, x, w));
        let mut j: usize = 0;
        let ghost before = line@;
        while j < name.len()
            invariant
                j <= name@.len(),
                line@ == before + name@.take(j as int),
            decreases name@.len() - j,
        {
            line.push(name[j]);
            assert(name@.take(j + 1) =~= name@.take(j as int).push(name@[j as int]));
            j = j + 1;
        }
        assert(name@.take(name@.len() as int) =~= name@);
        proof {
            let t = names.take(i + 1);
            assert(t.last() == names[i as int]);
            if i > 0 {
                assert(t.drop_last() =~= names.take(i as int));
                assert(line@ =~= line0 + squeeze_sep() + names[i as int]);
            } else {
                assert(t.len() == 1 && t[0] == names[0]);
                assert(line@ =~= crumb_lead() + names[0]);
            }
        }
        x = x + w;
        i = i + 1;
    }
    proof {
        if crumbs@.len() > 0 {
            assert(names.take(crumbs@.len() as int) =~= names);
        }
    }
    (string_of(line.as_slice()), boxes)
}

/// Which columns a listing `width` cells wide shows: the extension from 70
/// cells, the time from 50; a mark column when marks are shown; the name
/// gets what the fixed columns, two cells apart, leave.
#[derive(Debug, Clone, Copy, PartialEq, Eq, Structural)]
pub struct Cols {
    pub show_ext: bool,
    pub show_time: bool,
    pub mark_w: u16,
    pub name_w: u16,
}

/// The widths of the fixed columns.
pub const MARK_W: u16 = 2;
pub const EXT_W: u16 = 6;
pub const SIZE_W: u16 = 9;
pub const TIME_W: u16 = 12;
pub const GAP: u16 = 2;

/// The columns of a listing `width` cells wide.
pub open spec fn columns_of(width: int, marks_shown: bool) -> Cols {
    let show_ext = width >= 70;
    let show_time = width >= 50;
    let fixed = (if marks_shown { MARK_W + GAP } else { 0 }) + (if show_ext { EXT_W + GAP } else { 0 })
        + SIZE_W + GAP + (if show_time { TIME_W + GAP } else { 0 });
    Cols {
        show_ext,
        show_time,
        mark_w: if marks_shown { MARK_W } else { 0 },
        name_w: sat_sub(width, fixed) as u16,
    }
}

/// The columns of a listing `width` cells wide.
pub fn columns(width: u16, marks_shown: bool) -> (c: Cols)
    ensures
        c == columns_of(width as int, marks_shown),
{
    let show_ext = width >= 70;
    let show_time = width >= 50;
    let mark_w = if marks_shown { MARK_W } else { 0 };
    let mut fixed: u16 = 0;
    if marks_shown {
        fixed = fixed + MARK_W + GAP;
    }
    if show_ext {
        fixed = fixed + EXT_W + GAP;
    }
    fixed = fixed + SIZE_W + GAP;
    if show_time {
        fixed = fixed + TIME_W + GAP;
    }
    Cols { show_ext, show_time, mark_w, name_w: if width > fixed { width - fixed } else { 0 } }
}

/// `n` copies of `c`.
pub open spec fn repeated(c: char, n: int) -> Seq<char> {
    Seq::new(n as nat, |i: int| c)
}

/// The rule over the open level: `─ `, the caller's text, ` (truncated)`
/// when the read gave up early, then `─` to fill the width, and the live
/// filter as ` /filter ` at the right edge.
pub open spec fn rule_text(width: int, rule: Seq<char>, truncated: bool, filter: Option<Seq<char>>) -> Seq<char> {
    let left = seq!['\u{2500}', ' '] + rule + (if truncated { " (truncated)"@ } else { Seq::empty() });
    let right = match filter {
        Some(f) => seq![' ', '/'] + f + seq![' '],
        None => Seq::empty(),
    };
    let lw = min(text_columns(left) as int, width);
    let rw = min(text_columns(right) as int, width - lw);
    crate::panels::fitted(left, lw) + repeated('\u{2500}', width - lw - rw) + right
}

/// The rule over the open level.
pub fn rule_line(width: u16, rule: &str, truncated: bool, filter: Option<&str>) -> (out: String)
    ensures
        out@ == rule_text(width as int, rule@, truncated, match filter {
            Some(f) => Some(f@),
            None => None,
        }),
{
    let mut left: Vec<char> = vec!['\u{2500}', ' '];
    push_str(&mut left, rule);
    if truncated {
        push_str(&mut left, " (truncated)");
    }
    let mut right: Vec<char> = Vec::new();
    match filter {
        Some(f) => {
            right.push(' ');
            right.push('/');
            push_str(&mut right, f);
            right.push(' ');
        },
        None => {},
    }
    let ghost fs = match filter {
        Some(f) => Some(f@),
        None => None::<Seq<char>>,
    };
    proof {
        let l = seq!['\u{2500}', ' '] + rule@ + (if truncated { " (truncated)"@ } else { Seq::empty() });
        assert(left@ =~= l);
        match filter {
            Some(f) => {
                assert(right@ =~= seq![' ', '/'] + f@ + seq![' ']);
            },
            None => {
                assert(right@ =~= Seq::<char>::empty());
            },
        }
    }
    let lc = width_of(left.as_slice());
    let lw: usize = if lc < width as usize { lc } else { width as usize };
    let rest: usize = width as usize - lw;
    let rc = width_of(right.as_slice());
    let rw: usize = if rc < rest { rc } else { rest };
    let fill: usize = rest - rw;
    let mut out = crate::panels::fit(left.as_slice(), lw as u16);
    let mut k: usize = 0;
    let ghost start = out@;
    while k < fill
        invariant
            k <= fill,
            out@ == start + repeated('\u{2500}', k as int),
        decreases fill - k,
    {
        out.push('\u{2500}');
        assert(out@ =~= start + repeated('\u{2500}', k + 1));
        k = k + 1;
    }
    let ghost mid = out@;
    let mut j: usize = 0;
    while j < right.len()
        invariant
            j <= right@.len(),
            out@ == mid + right@.take(j as int),
        decreases right@.len() - j,
    {
        out.push(right[j]);
        assert(right@.take(j + 1) =~= right@.take(j as int).push(right@[j as int]));
        j = j + 1;
    }
    assert(right@.take(right@.len() as int) =~= right@);
    string_of(out.as_slice())
}

/// `text` cut to `width` columns, its trailing white space dropped, and
/// pushed against the right edge with spaces.
pub open spec fn right_fitted(text: Seq<char>, width: int) -> Seq<char> {
    let t = crate::uri::trim_end(crate::panels::fitted(text, width));
    let w = crate::width::text_columns(t);
    Seq::new((if width > w { width - w } else { 0 }) as nat, |i: int| ' ') + t
}

/// `text` cut to `width` and aligned right.
pub fn fit_right(text: &[char], width: u16) -> (out: Vec<char>)
    ensures
        out@ == right_fitted(text@, width as int),
{
    let f = crate::panels::fit(text, width);
    let mut n = f.len();
    assert(f@.take(n as int) =~= f@);
    while n > 0 && crate::uri::white_space(f[n - 1])
        invariant
            n <= f@.len(),
            crate::uri::trim_end(f@) == crate::uri::trim_end(f@.take(n as int)),
        decreases n,
    {
        assert(f@.take(n as int).drop_last() =~= f@.take(n - 1));
        n = n - 1;
    }
    let t = crate::text::copy_range(f.as_slice(), 0, n);
    assert(t@ =~= f@.take(n as int));
    let tw = crate::width::width_of(t.as_slice());
    let pad: usize = if (width as usize) > tw { width as usize - tw } else { 0 };
    let mut out: Vec<char> = Vec::new();
    let mut k: usize = 0;
    while k < pad
        invariant
            k <= pad,
            out@ == Seq::new(k as nat, |i: int| ' '),
        decreases pad - k,
    {
        out.push(' ');
        assert(out@ =~= Seq::new((k + 1) as nat, |i: int| ' '));
        k = k + 1;
    }
    let ghost front = out@;
    let mut j: usize = 0;
    while j < t.len()
        invariant
            j <= t@.len(),
            out@ == front + t@.take(j as int),
        decreases t@.len() - j,
    {
        out.push(t[j]);
        assert(t@.take(j + 1) =~= t@.take(j as int).push(t@[j as int]));
        j = j + 1;
    }
    assert(t@.take(t@.len() as int) =~= t@);
    assert(out@ =~= right_fitted(text@, width as int));
    out
}

/// What a click in the stack module landed on.
#[derive(Debug, Clone, Copy, PartialEq, Eq, Structural)]
pub enum Hit {
    Crumb(usize),
    Row(usize),
}

/// What a click at `(x, y)` in the stack module's `body` lands on: a crumb
/// of the trail, or a row of the listing counting the rows scrolled past.
pub open spec fn hit_of(body: Rect, names: Seq<Seq<char>>, fold_rows: int, scroll: int, n_rows: int, x: int, y: int) -> Option<Hit> {
    let s = split_of(body, names.len() as int, fold_rows);
    if s.crumbs.y <= y < s.crumbs.y + s.crumbs.height {
        if s.squeezed {
            if exists|i: int| 0 <= i < names.len() && #[trigger] crumb_start(s.crumbs.x as int, names, i) <= x
                < crumb_start(s.crumbs.x as int, names, i) + text_columns(names[i]) {
                Some(Hit::Crumb((choose|i: int| 0 <= i < names.len() && #[trigger] crumb_start(s.crumbs.x as int, names, i) <= x
                    < crumb_start(s.crumbs.x as int, names, i) + text_columns(names[i])) as usize))
            } else {
                None
            }
        } else {
            let (collapsed, start) = shown_crumbs(names.len() as int, fold_rows);
            let row = y - s.crumbs.y;
            if collapsed > 0 && row == 0 {
                Some(Hit::Crumb(0))
            } else {
                let idx = row - (if collapsed > 0 { 1int } else { 0int });
                if start + idx < names.len() {
                    Some(Hit::Crumb((collapsed + idx) as usize))
                } else {
                    None
                }
            }
        }
    } else if s.list.y <= y < s.list.y + s.list.height && scroll + (y - s.list.y) < n_rows {
        Some(Hit::Row((scroll + (y - s.list.y)) as usize))
    } else {
        None
    }
}

/// What a click at `(x, y)` in the stack module's `body` lands on.
pub fn hit(body: Rect, crumbs: &Vec<Crumb>, fold_rows: u16, scroll: usize, n_rows: usize, x: u16, y: u16) -> (r: Option<Hit>)
    requires
        body.in_range(),
        !(crumbs@.len() >= u16::MAX && fold_rows == u16::MAX),
        split_of(body, crumbs@.len() as int, fold_rows as int).squeezed
            ==> crumb_start(body.x as int, crumb_names(crumbs@), crumbs@.len() as int) <= u16::MAX,
        scroll + body.height <= usize::MAX,
    ensures
        r == hit_of(body, crumb_names(crumbs@), fold_rows as int, scroll as int, n_rows as int, x as int, y as int),
{
    let ghost names = crumb_names(crumbs@);
    let s = split(body, crumbs.len(), fold_rows);
    if y >= s.crumbs.y && y - s.crumbs.y < s.crumbs.height {
        if s.squeezed {
            let (_, boxes) = squeeze_layout(s.crumbs.x, crumbs);
            let mut i: usize = 0;
            while i < boxes.len()
                invariant
                    names == crumb_names(crumbs@),
                    s == split_of(body, crumbs@.len() as int, fold_rows as int),
                    s.squeezed,
                    s.crumbs.y <= y < s.crumbs.y + s.crumbs.height,
                    body.height > 0 && body.width > 0,
                    s.crumbs.x == body.x,
                    crumb_start(body.x as int, names, crumbs@.len() as int) <= u16::MAX,
                    boxes@.len() == crumbs@.len(),
                    names.len() == crumbs@.len(),
                    forall|j: int| 0 <= j < crumbs@.len() ==> #[trigger] boxes@[j] == (
                        j as usize,
                        crumb_start(body.x as int, names, j) as u16,
                        text_columns(crumbs@[j].name@) as u16,
                    ),
                    i <= boxes@.len(),
                    forall|j: int| 0 <= j < i ==> !(#[trigger] crumb_start(body.x as int, names, j) <= x
                        < crumb_start(body.x as int, names, j) + text_columns(names[j])),
                decreases boxes@.len() - i,
            {
                let (idx, bx, bw) = boxes[i];
                proof {
                    lemma_crumb_start_monotone(body.x as int, names, i + 1, crumbs@.len() as int);
                    lemma_crumb_start_monotone(body.x as int, names, 0, i as int);
                    assert(crumb_start(body.x as int, names, i + 1) == crumb_start(body.x as int, names, i as int) + text_columns(names[i as int]) + sep_w());
                    assert(names[i as int] == crumbs@[i as int].name@);
                }
                if x >= bx && (x - bx) < bw {
                    proof {
                        let p = |k: int| 0 <= k < names.len() && crumb_start(body.x as int, names, k) <= x
                            < crumb_start(body.x as int, names, k) + text_columns(names[k]);
                        assert(p(i as int));
                        let k = choose|k: int| 0 <= k < names.len() && #[trigger] crumb_start(body.x as int, names, k) <= x
                            < crumb_start(body.x as int, names, k) + text_columns(names[k]);
                        if k > i {
                            lemma_crumb_start_monotone(body.x as int, names, i + 1, k);
                        }
                        assert(k == i);
                    }
                    return Some(Hit::Crumb(idx));
                }
                i = i + 1;
            }
            return None;
        }
        let (collapsed, start) = visible_crumbs(crumbs.len(), fold_rows);
        let row = (y - s.crumbs.y) as usize;
        if collapsed > 0 && row == 0 {
            return Some(Hit::Crumb(0));
        }
        let idx = if collapsed > 0 { row - 1 } else { row };
        if idx < crumbs.len() - start {
            return Some(Hit::Crumb(collapsed + idx));
        }
        return None;
    }
    if y >= s.list.y && y - s.list.y < s.list.height {
        let row = scroll + (y - s.list.y) as usize;
        if row < n_rows {
            return Some(Hit::Row(row));
        }
    }
    None
}


/// A click on the trail lands on the level drawn on that row. With more
/// levels than `fold_rows`, the top row holds the folded older levels and
/// answers for the root, and row `r` below it shows level
/// `n - fold_rows + r`; otherwise row `r` shows level `r`.
pub proof fn law_a_click_on_the_trail_lands_on_the_level_drawn_there(body: Rect, names: Seq<Seq<char>>, fold_rows: int,
    scroll: int, n_rows: int, x: int, y: int)
    requires
        fold_rows >= 0,
        !split_of(body, names.len() as int, fold_rows).squeezed,
        split_of(body, names.len() as int, fold_rows).crumbs.y <= y
            < split_of(body, names.len() as int, fold_rows).crumbs.y + split_of(body, names.len() as int, fold_rows).crumbs.height,
    ensures
        ({
            let n = names.len() as int;
            let r = y - split_of(body, n, fold_rows).crumbs.y;
            let h = hit_of(body, names, fold_rows, scroll, n_rows, x, y);
            &&& (0 < fold_rows < n && r == 0) ==> h == Some(Hit::Crumb(0))
            &&& (0 < fold_rows < n && 1 <= r < fold_rows) ==> h == Some(Hit::Crumb((n - fold_rows + r) as usize))
            &&& ((fold_rows == 0 || n <= fold_rows) && r < n) ==> h == Some(Hit::Crumb(r as usize))
        }),
{
}


/// A click on the listing lands on the row drawn there: the row scrolled
/// to plus the line clicked, when the listing has that row.
pub proof fn law_a_click_on_the_listing_lands_on_the_row_drawn_there(body: Rect, names: Seq<Seq<char>>, fold_rows: int,
    scroll: int, n_rows: int, x: int, y: int)
    requires
        ({
            let s = split_of(body, names.len() as int, fold_rows);
            &&& !(s.crumbs.y <= y < s.crumbs.y + s.crumbs.height)
            &&& s.list.y <= y < s.list.y + s.list.height
        }),
    ensures
        ({
            let s = split_of(body, names.len() as int, fold_rows);
            let h = hit_of(body, names, fold_rows, scroll, n_rows, x, y);
            &&& scroll + (y - s.list.y) < n_rows ==> h == Some(Hit::Row((scroll + y - s.list.y) as usize))
            &&& scroll + (y - s.list.y) >= n_rows ==> h is None
        }),
{
}

} // verus!
