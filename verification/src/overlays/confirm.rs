//! "Are you sure?": deleting for good, dropping the queue, stopping what is
//! running, and quitting while it still runs. Each question carries the
//! words on its own two answers.
use vstd::prelude::*;
use crate::geometry::Rect;
use crate::ops::OpId;
use crate::overlays::Pending;
use crate::text::{wrap_all, wrap_strings, string_views, copy_range, decimal, push_decimal, push_str, string_of, chars_of};

verus! {

/// A question, what its two answers are called, and what saying yes leads to.
#[derive(Debug)]
pub struct Confirm {
    pub title: String,
    /// Logical lines; [`layout`] cuts each to the width of the box.
    pub body: Vec<String>,
    /// The word on the `y` answer.
    pub yes: &'static str,
    /// The word on the `n` answer.
    pub no: &'static str,
    pub pending: Pending,
}

/// `n` and a noun that agrees with it: `1 item`, `3 items`.
pub open spec fn counted(n: nat, one: Seq<char>, many: Seq<char>) -> Seq<char> {
    decimal(n) + seq![' '] + if n == 1 { one } else { many }
}

/// Append `n`, a space and the noun that agrees with it.
fn push_counted(out: &mut Vec<char>, n: usize, one: &str, many: &str)
    ensures
        final(out)@ == old(out)@ + counted(n as nat, one@, many@),
{
    push_decimal(out, n as u64);
    out.push(' ');
    if n == 1 {
        push_str(out, one);
    } else {
        push_str(out, many);
    }
    assert(final(out)@ =~= old(out)@ + counted(n as nat, one@, many@));
}

fn line(chars: Vec<char>) -> (s: String)
    ensures
        s@ == chars@,
{
    string_of(chars.as_slice())
}

impl Confirm {
    /// No trash to fall back on, or the trash bypassed on purpose: the last
    /// question before the bytes are gone.
    pub fn delete_permanently(op: OpId, n_items: usize) -> (c: Confirm)
        ensures
            c.title@ == "delete permanently"@,
            string_views(c.body@) == seq![
                counted(n_items as nat, "item"@, "items"@) + " will be permanently deleted."@,
                "This cannot be undone."@,
            ],
            c.yes@ == "delete"@,
            c.no@ == "keep"@,
            c.pending == Pending::DeletePermanently(op),
    {
        let mut first: Vec<char> = Vec::new();
        push_counted(&mut first, n_items, "item", "items");
        push_str(&mut first, " will be permanently deleted.");
        let body = vec![line(first), String::from_str("This cannot be undone.")];
        assert(string_views(body@) =~= seq![
            counted(n_items as nat, "item"@, "items"@) + " will be permanently deleted."@,
            "This cannot be undone."@,
        ]);
        Confirm {
            title: String::from_str("delete permanently"),
            body,
            yes: "delete",
            no: "keep",
            pending: Pending::DeletePermanently(op),
        }
    }

    /// Dropping everything queued that has not started.
    pub fn clear_queue(n: usize) -> (c: Confirm)
        ensures
            c.title@ == "clear the queue"@,
            string_views(c.body@) == seq![
                decimal(n as nat) + " queued "@ + (if n == 1 { "operation"@ } else { "operations"@ })
                    + " will be dropped."@,
            ],
            c.yes@ == "clear"@,
            c.no@ == "keep"@,
            c.pending == Pending::ClearQueue,
    {
        let mut first: Vec<char> = Vec::new();
        push_decimal(&mut first, n as u64);
        push_str(&mut first, " queued ");
        if n == 1 {
            push_str(&mut first, "operation");
        } else {
            push_str(&mut first, "operations");
        }
        push_str(&mut first, " will be dropped.");
        let body = vec![line(first)];
        assert(string_views(body@) =~= seq![
            decimal(n as nat) + " queued "@ + (if n == 1 { "operation"@ } else { "operations"@ })
                + " will be dropped."@,
        ]);
        Confirm {
            title: String::from_str("clear the queue"),
            body,
            yes: "clear",
            no: "keep",
            pending: Pending::ClearQueue,
        }
    }

    /// Stopping the running operation, named by its own title.
    pub fn cancel_running(op: OpId, title: &str) -> (c: Confirm)
        ensures
            c.title@ == "stop the running operation"@,
            string_views(c.body@) == seq![title@ + " is still running."@],
            c.yes@ == "stop"@,
            c.no@ == "continue"@,
            c.pending == Pending::CancelRunning(op),
    {
        let mut first: Vec<char> = chars_of(title);
        push_str(&mut first, " is still running.");
        let body = vec![line(first)];
        assert(string_views(body@) =~= seq![title@ + " is still running."@]);
        Confirm {
            title: String::from_str("stop the running operation"),
            body,
            yes: "stop",
            no: "continue",
            pending: Pending::CancelRunning(op),
        }
    }

    /// Quitting while an operation is in flight stops it.
    pub fn quit_with_running(title: &str) -> (c: Confirm)
        ensures
            c.title@ == "quit"@,
            string_views(c.body@) == seq![title@ + " is still running."@, "It will be stopped."@],
            c.yes@ == "quit"@,
            c.no@ == "stay"@,
            c.pending == Pending::Quit,
    {
        let mut first: Vec<char> = chars_of(title);
        push_str(&mut first, " is still running.");
        let body = vec![line(first), String::from_str("It will be stopped.")];
        assert(string_views(body@) =~= seq![title@ + " is still running."@, "It will be stopped."@]);
        Confirm {
            title: String::from_str("quit"),
            body,
            yes: "quit",
            no: "stay",
            pending: Pending::Quit,
        }
    }
}

/// Where the box lands, the body already cut to its width, and where the two
/// words on the footer are: what is drawn and what a click is tested
/// against, worked out once.
#[derive(Debug)]
pub struct Layout {
    pub rect: Rect,
    pub inner: Rect,
    pub body_rows: Vec<String>,
    pub footer_y: u16,
    /// `[start, end)` columns of the `yes` word.
    pub yes: (u16, u16),
    /// `[start, end)` columns of the `no` word.
    pub no: (u16, u16),
}

/// The box's width in an area `width` cells wide: four short of the area,
/// kept between 24 and 56, and never wider than the area.
pub open spec fn box_width(width: int) -> int {
    let w = if width >= 4 { width - 4 } else { 0 };
    let w = if w < 24 { 24 } else if w > 56 { 56 } else { w };
    if w > width { width } else { w }
}

/// `v` kept between `lo` and `hi`.
pub open spec fn clamp(v: int, lo: int, hi: int) -> int {
    if v < lo { lo } else if v > hi { hi } else { v }
}

/// The body's rows in a box of outer width `w`.
pub open spec fn body_rows_of(c: Confirm, w: int) -> Seq<Seq<char>> {
    wrap_all(string_views(c.body@), (w - 2) as nat)
}

/// Whether `layout` can work `c` out in `area` without leaving the cell
/// space: the area itself fits, an area that is drawn in at all is at least
/// four rows high, and the rows and the footer words fit in the counters.
pub open spec fn layout_ok(area: Rect, c: Confirm) -> bool {
    &&& area.in_range()
    &&& (area.width == 0 || area.height == 0 || area.height >= 4)
    &&& area.x + area.width + c.yes@.len() + c.no@.len() + 11 <= u16::MAX
    &&& (area.width == 0 || area.height == 0 || box_width(area.width as int) < 8
        || body_rows_of(c, box_width(area.width as int)).len() + 3 <= u16::MAX)
}

/// Whether the box is drawn in `area` at all: the area is not empty, and
/// the box would be at least eight cells wide.
pub open spec fn drawn(area: Rect) -> bool {
    !(area.width == 0 || area.height == 0 || box_width(area.width as int) < 8)
}

/// Where the box lands in `area`.
pub open spec fn box_rect(area: Rect, c: Confirm) -> Rect {
    let w = box_width(area.width as int);
    let h = clamp(body_rows_of(c, w).len() as int + 3, 4, area.height as int);
    Rect {
        x: (area.x + (area.width - w) / 2) as u16,
        y: (area.y + (area.height - h) / 2) as u16,
        width: w as u16,
        height: h as u16,
    }
}

/// The inside of the box, within its border.
pub open spec fn inner_rect(area: Rect, c: Confirm) -> Rect {
    let r = box_rect(area, c);
    Rect { x: (r.x + 1) as u16, y: (r.y + 1) as u16, width: (r.width - 2) as u16, height: (r.height - 2) as u16 }
}

/// The row the two answers are on: the box's last row inside the border.
pub open spec fn footer_row(area: Rect, c: Confirm) -> int {
    let i = inner_rect(area, c);
    i.y + i.height - 1
}

/// The columns of `[y] yes`.
pub open spec fn yes_span(area: Rect, c: Confirm) -> (u16, u16) {
    let x = inner_rect(area, c).x;
    (x, (x + 4 + c.yes@.len()) as u16)
}

/// The columns of `[n] no`, three cells after `[y] yes`.
pub open spec fn no_span(area: Rect, c: Confirm) -> (u16, u16) {
    let e = yes_span(area, c).1;
    ((e + 3) as u16, (e + 7 + c.no@.len()) as u16)
}

/// Lay the box out in `area`. `None` when the area is empty or too narrow
/// for a box eight cells wide.
pub fn layout(area: Rect, c: &Confirm) -> (r: Option<Layout>)
    requires
        layout_ok(area, *c),
    ensures
        r is None <==> !drawn(area),
        r matches Some(l) ==> {
            &&& l.rect == box_rect(area, *c)
            &&& l.inner == inner_rect(area, *c)
            &&& string_views(l.body_rows@) == body_rows_of(*c, box_width(area.width as int))
            &&& l.footer_y == footer_row(area, *c)
            &&& l.yes == yes_span(area, *c)
            &&& l.no == no_span(area, *c)
        },
{
    if area.width == 0 || area.height == 0 {
        return None;
    }
    let a = if area.width >= 4 { area.width - 4 } else { 0 };
    let b = if a < 24 { 24 } else if a > 56 { 56 } else { a };
    let w: u16 = if b > area.width { area.width } else { b };
    if w < 8 {
        return None;
    }
    let inner_w: u16 = w - 2;
    let body_rows = wrap_strings(&c.body, inner_w as usize);
    let n = body_rows.len();
    let want: u16 = (n + 3) as u16;
    let h: u16 = if want < 4 { 4 } else if want > area.height { area.height } else { want };
    let rect = Rect {
        x: area.x + (area.width - w) / 2,
        y: area.y + (area.height - h) / 2,
        width: w,
        height: h,
    };
    let inner = Rect { x: rect.x + 1, y: rect.y + 1, width: w - 2, height: h - 2 };
    let footer_y = inner.y + inner.height - 1;
    let yes_len = chars_of(c.yes).len();
    let no_len = chars_of(c.no).len();
    let yes_end: u16 = (inner.x as usize + 4 + yes_len) as u16;
    let yes = (inner.x, yes_end);
    let no = (yes_end + 3, (yes_end as usize + 7 + no_len) as u16);
    Some(Layout { rect, inner, body_rows, footer_y, yes, no })
}

} // verus!
