//! Where everything is, worked out once a frame: the stack, the preview
//! and the operations down one column, the status row under them.
//!
//! The stack keeps at least [`STACK_MIN_ROWS`] and takes what the other two
//! leave. The preview is [`COLLAPSED_ROWS`] folded; open it grows by its
//! configured rows, focused up to half the body. The operations grow only
//! while focused, by their queue up to their configured rows. The
//! preview's extra is served first. Below [`MIN_COLS`] or [`MIN_ROWS`]
//! nothing is laid out.
use vstd::prelude::*;
use crate::geometry::Rect;
use crate::panels::{column_order, index_of, ModuleId};

verus! {

/// The narrowest area laid out.
pub const MIN_COLS: u16 = 60;

/// The rows of a module's header.
pub const HEADER_ROWS: u16 = 1;

/// A folded module: two borders, the header row, one row of content.
pub const COLLAPSED_ROWS: u16 = 4;

/// The fewest rows the open level's listing is worth drawing at.
pub const LIST_ROWS_MIN: u16 = 7;

/// The stack's floor: two borders, the header, one crumb row, the rule,
/// and the listing at [`LIST_ROWS_MIN`].
pub const STACK_MIN_ROWS: u16 = 12;

/// The stack at its floor, the other two folded, and the status row.
pub const MIN_ROWS: u16 = 21;

/// One frame's geometry.
#[derive(Debug, Clone, Copy)]
pub struct Regions {
    /// The whole of it, padding already taken off.
    pub area: Rect,
    /// One rect per module, by [`ModuleId::index`].
    pub modules: [Rect; 3],
    pub status: Rect,
}

impl Regions {
    /// The rect of module `m`.
    pub fn rect_of(&self, m: ModuleId) -> (r: Rect)
        ensures
            r == self.modules@[index_of(m)],
    {
        self.modules[m.index()]
    }

    /// Which module a cell is in, trying them top to bottom.
    pub fn hit(&self, x: u16, y: u16) -> (r: Option<ModuleId>)
        requires
            forall|i: int| 0 <= i < 3 ==> (#[trigger] self.modules@[i]).in_range(),
        ensures
            r == hit_of(*self, x as int, y as int),
    {
        if crate::geometry::inside(self.modules[0], x, y) {
            Some(ModuleId::Stack)
        } else if crate::geometry::inside(self.modules[1], x, y) {
            Some(ModuleId::Preview)
        } else if crate::geometry::inside(self.modules[2], x, y) {
            Some(ModuleId::Operations)
        } else {
            None
        }
    }
}

/// Which module holds the cell `(x, y)`, the first of the column that does.
pub open spec fn hit_of(r: Regions, x: int, y: int) -> Option<ModuleId> {
    if r.modules@[0].holds(x, y) {
        Some(ModuleId::Stack)
    } else if r.modules@[1].holds(x, y) {
        Some(ModuleId::Preview)
    } else if r.modules@[2].holds(x, y) {
        Some(ModuleId::Operations)
    } else {
        None
    }
}

/// Which module has the keyboard, whether the preview is open, and what
/// each module grows to.
#[derive(Debug)]
pub struct LayoutState {
    /// Which module has the keyboard.
    pub focus: ModuleId,
    /// Whether the preview draws more than its folded line.
    pub preview_open: bool,
    /// How far the preview grows when open but not focused.
    pub preview_rows: u16,
    /// How far the operations grow while focused, up to the queue.
    pub ops_rows: u16,
    /// How many parent levels draw a row each before the trail squeezes.
    pub fold_rows: u16,
    pub last: Option<Regions>,
}

/// `area` with `pad` taken off each side, or an empty rect at its corner
/// when nothing is left.
pub open spec fn inset_of(area: Rect, pad: (u16, u16)) -> Rect {
    let w = if area.width > 2 * pad.0 { area.width - 2 * pad.0 } else { 0 };
    let h = if area.height > 2 * pad.1 { area.height - 2 * pad.1 } else { 0 };
    if w == 0 || h == 0 {
        Rect { x: area.x, y: area.y, width: 0, height: 0 }
    } else {
        Rect { x: (area.x + pad.0) as u16, y: (area.y + pad.1) as u16, width: w as u16, height: h as u16 }
    }
}

/// Shrink a rect by the padding, never past nothing.
pub fn inset(area: Rect, pad: (u16, u16)) -> (r: Rect)
    requires
        area.in_range(),
    ensures
        r == inset_of(area, pad),
{
    let dx: u32 = 2 * (pad.0 as u32);
    let dy: u32 = 2 * (pad.1 as u32);
    let w: u16 = if (area.width as u32) > dx { ((area.width as u32) - dx) as u16 } else { 0 };
    let h: u16 = if (area.height as u32) > dy { ((area.height as u32) - dy) as u16 } else { 0 };
    if w == 0 || h == 0 {
        return Rect { x: area.x, y: area.y, width: 0, height: 0 };
    }
    Rect { x: area.x + pad.0, y: area.y + pad.1, width: w, height: h }
}

/// The extra rows each module gets beyond its floor, in column order,
/// for a body `body_h` rows high.
pub open spec fn extras(focus: ModuleId, preview_open: bool, preview_rows: int, ops_rows: int, queued: int, body_h: int) -> (int, int, int) {
    let room = body_h - STACK_MIN_ROWS - 2 * COLLAPSED_ROWS;
    let preview_desired = if !preview_open {
        0
    } else if focus == ModuleId::Preview {
        if body_h / 2 > COLLAPSED_ROWS { body_h / 2 - COLLAPSED_ROWS } else { 0 }
    } else {
        preview_rows
    };
    let preview_extra = if preview_desired < room { preview_desired } else { room };
    let ops_desired = if focus == ModuleId::Operations {
        let q = if queued < ops_rows { queued } else { ops_rows };
        if q > 1 { q - 1 } else { 0 }
    } else {
        0
    };
    let ops_extra = if ops_desired < room - preview_extra { ops_desired } else { room - preview_extra };
    (room - preview_extra - ops_extra, preview_extra, ops_extra)
}

/// The geometry of a frame, or nothing when the padded area is below the
/// floor.
pub open spec fn regions_of(focus: ModuleId, preview_open: bool, preview_rows: int, ops_rows: int, full: Rect, pad: (u16, u16), queued: int) -> Option<Regions> {
    let area = inset_of(full, pad);
    if area.width < MIN_COLS || area.height < MIN_ROWS {
        None
    } else {
        let body_h = area.height - 1;
        let (se, pe, oe) = extras(focus, preview_open, preview_rows, ops_rows, queued, body_h);
        let h0 = STACK_MIN_ROWS + se;
        let h1 = COLLAPSED_ROWS + pe;
        let h2 = COLLAPSED_ROWS + oe;
        Some(Regions {
            area,
            modules: [
                Rect { x: area.x, y: area.y, width: area.width, height: h0 as u16 },
                Rect { x: area.x, y: (area.y + h0) as u16, width: area.width, height: h1 as u16 },
                Rect { x: area.x, y: (area.y + h0 + h1) as u16, width: area.width, height: h2 as u16 },
            ],
            status: Rect { x: area.x, y: (area.y + area.height - 1) as u16, width: area.width, height: 1 },
        })
    }
}

/// What a module's floor is.
pub open spec fn floor_of(m: ModuleId) -> int {
    match m {
        ModuleId::Stack => STACK_MIN_ROWS as int,
        _ => COLLAPSED_ROWS as int,
    }
}

/// The modules tile the body: each the full width of the area, stacked top
/// to bottom from the area's top with no gap, each at least its floor, the
/// last ending where the status row begins, and the status row the area's
/// last row.
pub open spec fn tiles(r: Regions) -> bool {
    &&& forall|i: int| 0 <= i < 3 ==> (#[trigger] r.modules@[i]).x == r.area.x && r.modules@[i].width == r.area.width
    &&& r.modules@[0].y == r.area.y
    &&& r.modules@[1].y == r.modules@[0].y + r.modules@[0].height
    &&& r.modules@[2].y == r.modules@[1].y + r.modules@[1].height
    &&& r.modules@[2].y + r.modules@[2].height == r.status.y
    &&& forall|i: int| 0 <= i < 3 ==> (#[trigger] r.modules@[i]).height >= floor_of(column_order()[i])
    &&& r.status.height == 1
    &&& r.status.y == r.area.y + r.area.height - 1
}

/// Whatever is asked of it, a laid-out frame tiles its body, and the stack
/// keeps its floor.
pub proof fn law_the_modules_tile_the_body(focus: ModuleId, preview_open: bool, preview_rows: u16, ops_rows: u16, full: Rect, pad: (u16, u16), queued: u16)
    requires
        full.in_range(),
        regions_of(focus, preview_open, preview_rows as int, ops_rows as int, full, pad, queued as int) is Some,
    ensures
        tiles(regions_of(focus, preview_open, preview_rows as int, ops_rows as int, full, pad, queued as int)->0),
        regions_of(focus, preview_open, preview_rows as int, ops_rows as int, full, pad, queued as int)->0.modules@[0].height >= STACK_MIN_ROWS,
{
    let r = regions_of(focus, preview_open, preview_rows as int, ops_rows as int, full, pad, queued as int)->0;
    let area = inset_of(full, pad);
    let (se, pe, oe) = extras(focus, preview_open, preview_rows as int, ops_rows as int, queued as int, area.height - 1);
    assert(se >= 0 && pe >= 0 && oe >= 0);
    assert(se + pe + oe == area.height - 1 - STACK_MIN_ROWS - 2 * COLLAPSED_ROWS);
    assert(r.modules@[0] == Rect { x: area.x, y: area.y, width: area.width, height: (STACK_MIN_ROWS + se) as u16 });
    assert forall|i: int| 0 <= i < 3 implies (#[trigger] r.modules@[i]).height >= floor_of(column_order()[i]) by {
    }
}

impl LayoutState {
    /// Which module has the keyboard.
    pub open spec fn focus_view(&self) -> ModuleId {
        self.focus
    }

    /// The stack focused, the preview open.
    pub fn new(preview_rows: u16, ops_rows: u16, fold_rows: u16) -> (s: LayoutState)
        ensures
            s.focus_view() == ModuleId::Stack,
            s.preview_open,
            s.preview_rows == preview_rows,
            s.ops_rows == ops_rows,
            s.fold_rows == fold_rows,
            s.last is None,
    {
        LayoutState { focus: ModuleId::Stack, preview_open: true, preview_rows, ops_rows, fold_rows, last: None }
    }

    /// The geometry of one frame, kept as the last one, or nothing when the
    /// terminal is too small to draw anything honest in.
    pub fn regions(&mut self, full: Rect, pad: (u16, u16), queued: u16) -> (r: Option<Regions>)
        requires
            full.in_range(),
        ensures
            r == regions_of(old(self).focus_view(), old(self).preview_open, old(self).preview_rows as int,
                old(self).ops_rows as int, full, pad, queued as int),
            final(self).last == r,
            final(self).focus_view() == old(self).focus_view(),
            final(self).preview_open == old(self).preview_open,
            final(self).preview_rows == old(self).preview_rows,
            final(self).ops_rows == old(self).ops_rows,
            final(self).fold_rows == old(self).fold_rows,
            r matches Some(g) ==> tiles(g),
    {
        let area = inset(full, pad);
        if area.width < MIN_COLS || area.height < MIN_ROWS {
            self.last = None;
            return None;
        }
        let status = Rect { x: area.x, y: area.y + area.height - 1, width: area.width, height: 1 };
        let body_h: u16 = area.height - 1;
        let room: u16 = body_h - STACK_MIN_ROWS - 2 * COLLAPSED_ROWS;
        let preview_desired: u16 = if !self.preview_open {
            0
        } else if self.focus == ModuleId::Preview {
            if body_h / 2 > COLLAPSED_ROWS { body_h / 2 - COLLAPSED_ROWS } else { 0 }
        } else {
            self.preview_rows
        };
        let preview_extra: u16 = if preview_desired < room { preview_desired } else { room };
        let ops_desired: u16 = if self.focus == ModuleId::Operations {
            let q = if queued < self.ops_rows { queued } else { self.ops_rows };
            if q > 1 { q - 1 } else { 0 }
        } else {
            0
        };
        let ops_extra: u16 = if ops_desired < room - preview_extra { ops_desired } else { room - preview_extra };
        let stack_extra: u16 = room - preview_extra - ops_extra;
        let h0 = STACK_MIN_ROWS + stack_extra;
        let h1 = COLLAPSED_ROWS + preview_extra;
        let h2 = COLLAPSED_ROWS + ops_extra;
        let modules = [
            Rect { x: area.x, y: area.y, width: area.width, height: h0 },
            Rect { x: area.x, y: area.y + h0, width: area.width, height: h1 },
            Rect { x: area.x, y: area.y + h0 + h1, width: area.width, height: h2 },
        ];
        let g = Regions { area, modules, status };
        proof {
            assert(g.modules@ =~= seq![modules[0], modules[1], modules[2]]);
            assert(g == regions_of(self.focus, self.preview_open, self.preview_rows as int, self.ops_rows as int, full, pad, queued as int)->0);
            law_the_modules_tile_the_body(self.focus, self.preview_open, self.preview_rows, self.ops_rows, full, pad, queued);
        }
        self.last = Some(g);
        Some(g)
    }

    /// Which module has the keyboard.
    pub fn focus(&self) -> (m: ModuleId)
        ensures
            m == self.focus_view(),
    {
        self.focus
    }

    /// Focus a module; focusing the preview opens it.
    pub fn focus_set(&mut self, m: ModuleId)
        ensures
            final(self).focus_view() == m,
            final(self).preview_open == (old(self).preview_open || m == ModuleId::Preview),
            final(self).focus_view() == ModuleId::Preview ==> final(self).preview_open,
            final(self).preview_rows == old(self).preview_rows,
            final(self).ops_rows == old(self).ops_rows,
            final(self).fold_rows == old(self).fold_rows,
            final(self).last == old(self).last,
    {
        if m == ModuleId::Preview {
            self.preview_open = true;
        }
        self.focus = m;
    }

    /// Focus the next module down the column, the stack after the last.
    pub fn focus_next(&mut self)
        ensures
            final(self).focus_view() == column_order()[(index_of(old(self).focus_view()) + 1) % 3],
            final(self).preview_open == (old(self).preview_open || final(self).focus_view() == ModuleId::Preview),
            final(self).focus_view() == ModuleId::Preview ==> final(self).preview_open,
            final(self).preview_rows == old(self).preview_rows,
            final(self).ops_rows == old(self).ops_rows,
            final(self).fold_rows == old(self).fold_rows,
            final(self).last == old(self).last,
    {
        let i = (self.focus.index() + 1) % 3;
        let c = crate::panels::column_ids();
        self.focus_set(c[i]);
    }

    /// Focus the next module up the column, the last after the stack.
    pub fn focus_prev(&mut self)
        ensures
            final(self).focus_view() == column_order()[(index_of(old(self).focus_view()) + 2) % 3],
            final(self).preview_open == (old(self).preview_open || final(self).focus_view() == ModuleId::Preview),
            final(self).focus_view() == ModuleId::Preview ==> final(self).preview_open,
            final(self).preview_rows == old(self).preview_rows,
            final(self).ops_rows == old(self).ops_rows,
            final(self).fold_rows == old(self).fold_rows,
            final(self).last == old(self).last,
    {
        let i = (self.focus.index() + 3 - 1) % 3;
        let c = crate::panels::column_ids();
        self.focus_set(c[i]);
    }

    /// `i`: open the preview if folded; fold it if open, landing focus on
    /// the stack when it had it.
    pub fn toggle_preview(&mut self)
        ensures
            final(self).preview_open == !old(self).preview_open,
            final(self).focus_view() == (if old(self).preview_open && old(self).focus_view() == ModuleId::Preview {
                ModuleId::Stack
            } else {
                old(self).focus_view()
            }),
            (old(self).focus_view() == ModuleId::Preview ==> old(self).preview_open)
                ==> (final(self).focus_view() == ModuleId::Preview ==> final(self).preview_open),
            final(self).preview_rows == old(self).preview_rows,
            final(self).ops_rows == old(self).ops_rows,
            final(self).fold_rows == old(self).fold_rows,
            final(self).last == old(self).last,
    {
        if self.preview_open {
            self.preview_open = false;
            if self.focus == ModuleId::Preview {
                self.focus = ModuleId::Stack;
            }
        } else {
            self.preview_open = true;
        }
    }

    /// Whether `m` draws more than its folded line: the stack always, the
    /// preview when open, the operations when focused.
    pub fn is_open(&self, m: ModuleId) -> (b: bool)
        ensures
            b == (match m {
                ModuleId::Stack => true,
                ModuleId::Preview => self.preview_open,
                ModuleId::Operations => self.focus_view() == ModuleId::Operations,
            }),
    {
        match m {
            ModuleId::Stack => true,
            ModuleId::Preview => self.preview_open,
            ModuleId::Operations => self.focus == ModuleId::Operations,
        }
    }
}

} // verus!

verus! {

/// What a terminal below the floor shows.
pub open spec fn floor_text() -> Seq<char> {
    "STAR/FOLD needs at least "@ + crate::text::decimal(MIN_COLS as nat) + seq!['\u{d7}'] + crate::text::decimal(MIN_ROWS as nat)
}

/// Where the size message goes in an `area` too small for the frame, and
/// its text cut to the width: centred, on the middle row; nothing in an
/// empty area.
pub open spec fn size_message_of(area: Rect) -> Option<(u16, u16, Seq<char>)> {
    if area.height == 0 || area.width == 0 {
        None
    } else {
        let t = if floor_text().len() <= area.width { floor_text() } else { floor_text().take(area.width as int) };
        Some((
            (area.x + (if area.width > t.len() { area.width - t.len() } else { 0 }) / 2) as u16,
            (area.y + area.height / 2) as u16,
            t,
        ))
    }
}

/// The size message for an `area` too small for the frame.
pub fn size_message(area: Rect) -> (r: Option<(u16, u16, Vec<char>)>)
    requires
        area.in_range(),
    ensures
        match r {
            Some((x, y, t)) => size_message_of(area) == Some((x, y, t@)),
            None => size_message_of(area) is None,
        },
{
    if area.height == 0 || area.width == 0 {
        return None;
    }
    let mut full: Vec<char> = crate::text::chars_of("STAR/FOLD needs at least ");
    crate::text::push_decimal(&mut full, MIN_COLS as u64);
    full.push('\u{d7}');
    crate::text::push_decimal(&mut full, MIN_ROWS as u64);
    assert(full@ =~= floor_text());
    let n: usize = if full.len() <= area.width as usize { full.len() } else { area.width as usize };
    let t = crate::text::copy_range(full.as_slice(), 0, n);
    assert(t@ =~= (if floor_text().len() <= area.width { floor_text() } else { floor_text().take(area.width as int) }));
    let pad: u16 = if (area.width as usize) > n { area.width - n as u16 } else { 0 };
    Some((area.x + pad / 2, area.y + area.height / 2, t))
}

} // verus!
