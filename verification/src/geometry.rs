//! Rectangles of terminal cells.
use vstd::prelude::*;

verus! {

/// A rectangle of cells: its top-left corner and its size.
#[derive(Debug, Clone, Copy, PartialEq, Eq, Structural)]
pub struct Rect {
    pub x: u16,
    pub y: u16,
    pub width: u16,
    pub height: u16,
}

impl Rect {
    pub fn new(x: u16, y: u16, width: u16, height: u16) -> (r: Rect)
        ensures
            r == (Rect { x, y, width, height }),
    {
        Rect { x, y, width, height }
    }

    /// Whether the cell `(px, py)` lies in the rectangle.
    pub open spec fn holds(self, px: int, py: int) -> bool {
        &&& self.x <= px < self.x + self.width
        &&& self.y <= py < self.y + self.height
    }

    /// Whether the rectangle fits in the `u16` cell space.
    pub open spec fn in_range(self) -> bool {
        &&& self.x + self.width <= u16::MAX
        &&& self.y + self.height <= u16::MAX
    }
}

/// Whether the cell `(x, y)` is inside `r`.
pub fn inside(r: Rect, x: u16, y: u16) -> (b: bool)
    ensures
        b == r.holds(x as int, y as int),
{
    x >= r.x && (x - r.x) < r.width && y >= r.y && (y - r.y) < r.height
}

/// A box centred in `area`: `margin` cells short of the area on each side,
/// its width kept between `min_w` and `max_w` and never wider than the area,
/// `height` rows high or as high as the area.
pub open spec fn centred_box(area: Rect, min_w: int, max_w: int, height: int, margin: int) -> Rect {
    let w0 = if area.width >= 2 * margin { area.width - 2 * margin } else { 0 };
    let w1 = if w0 < min_w { min_w } else if w0 > max_w { max_w } else { w0 };
    let w = if w1 > area.width { area.width as int } else { w1 };
    let h = if height > area.height { area.height as int } else { height };
    Rect {
        x: (area.x + (area.width - w) / 2) as u16,
        y: (area.y + (area.height - h) / 2) as u16,
        width: w as u16,
        height: h as u16,
    }
}

/// The box [`centred_box`] describes.
pub fn centred(area: Rect, min_w: u16, max_w: u16, height: u16, margin: u16) -> (r: Rect)
    requires
        min_w <= max_w,
        area.in_range(),
    ensures
        r == centred_box(area, min_w as int, max_w as int, height as int, margin as int),
        r.width <= area.width,
        r.height <= area.height,
        r.x + r.width <= area.x + area.width,
        r.y + r.height <= area.y + area.height,
        r.x >= area.x,
        r.y >= area.y,
{
    let m2: u32 = 2 * (margin as u32);
    let w0: u16 = if (area.width as u32) >= m2 { ((area.width as u32) - m2) as u16 } else { 0 };
    let w1 = if w0 < min_w { min_w } else if w0 > max_w { max_w } else { w0 };
    let w = if w1 > area.width { area.width } else { w1 };
    let h = if height > area.height { area.height } else { height };
    let x = (area.x as u32 + ((area.width - w) / 2) as u32) as u16;
    let y = (area.y as u32 + ((area.height - h) / 2) as u32) as u16;
    Rect { x, y, width: w, height: h }
}

/// Where a face `width` by `height` cells big, at `(x, y)` cells into
/// `body`, lands on the screen: nowhere when it is empty, when it would
/// reach past the body, or when a coordinate does not fit in a cell index.
pub open spec fn placement_of(body: Rect, x: int, y: int, width: int, height: int) -> Option<Rect> {
    if width == 0 || height == 0 || x + width > u16::MAX || y + height > u16::MAX
        || x + width > body.width || y + height > body.height || body.x + x > u16::MAX || body.y + y > u16::MAX {
        None
    } else {
        Some(Rect { x: (body.x + x) as u16, y: (body.y + y) as u16, width: width as u16, height: height as u16 })
    }
}

/// Where a face at `(x, y)` in `body` lands.
pub fn placement(body: Rect, x: u16, y: u16, width: u16, height: u16) -> (r: Option<Rect>)
    ensures
        r == placement_of(body, x as int, y as int, width as int, height as int),
        r matches Some(p) ==> body.x <= p.x && p.x + p.width <= body.x + body.width
            && body.y <= p.y && p.y + p.height <= body.y + body.height,
{
    if width == 0 || height == 0 {
        return None;
    }
    let right = match x.checked_add(width) {
        Some(v) => v,
        None => return None,
    };
    let bottom = match y.checked_add(height) {
        Some(v) => v,
        None => return None,
    };
    if right > body.width || bottom > body.height {
        return None;
    }
    let px = match body.x.checked_add(x) {
        Some(v) => v,
        None => return None,
    };
    let py = match body.y.checked_add(y) {
        Some(v) => v,
        None => return None,
    };
    Some(Rect { x: px, y: py, width, height })
}

} // verus!
