//! The operations module: the queue, and how far it has got. Rows arrive
//! already worded; this module picks which one a folded module shows and
//! which row a click lands on.
use vstd::prelude::*;
use crate::ops::OpId;
use crate::geometry::Rect;

verus! {

/// How a queued operation's row is coloured.
#[derive(Debug, Clone, Copy, PartialEq, Eq, Structural)]
pub enum Tone {
    Pending,
    Running,
    Conflict,
    Done,
    Failed,
}

/// One queued operation, already worded.
#[derive(Debug, Clone)]
pub struct OpRow {
    pub title: String,
    pub status: String,
    pub bar: Option<String>,
    pub tone: Tone,
}

/// The tones of the rows, in order.
pub open spec fn tones(rows: Seq<OpRow>) -> Seq<Tone> {
    rows.map_values(|r: OpRow| r.tone)
}

/// Where `t` first occurs among the tones, if it does.
pub open spec fn first_tone(tones: Seq<Tone>, t: Tone) -> Option<int> {
    crate::text::first_index(tones, t)
}

/// The first row with tone `t`.
pub fn find_tone(rows: &Vec<OpRow>, t: Tone) -> (r: Option<usize>)
    ensures
        match r {
            Some(i) => first_tone(tones(rows@), t) == Some(i as int),
            None => first_tone(tones(rows@), t) is None,
        },
{
    let ghost ts = tones(rows@);
    let mut i: usize = 0;
    while i < rows.len()
        invariant
            ts == tones(rows@),
            ts.len() == rows@.len(),
            i <= rows@.len(),
            forall|j: int| 0 <= j < i ==> ts[j] != t,
        decreases rows@.len() - i,
    {
        if rows[i].tone == t {
            proof {
                assert(ts[i as int] == t);
                crate::text::lemma_first_index_is(ts, t, i as int);
            }
            return Some(i);
        }
        i = i + 1;
    }
    proof {
        crate::text::lemma_first_index_none(ts, t);
    }
    None
}

/// The operation actually running, if any: the first row whose tone says
/// so.
pub fn running(rows: &Vec<OpRow>) -> (r: Option<usize>)
    ensures
        match r {
            Some(i) => first_tone(tones(rows@), Tone::Running) == Some(i as int),
            None => first_tone(tones(rows@), Tone::Running) is None,
        },
{
    find_tone(rows, Tone::Running)
}

/// The row a folded module shows: the running one, else the first pending
/// one, else none.
pub open spec fn summary_of(rows: Seq<OpRow>) -> Option<int> {
    match first_tone(tones(rows), Tone::Running) {
        Some(i) => Some(i),
        None => first_tone(tones(rows), Tone::Pending),
    }
}

/// The row a folded module shows.
pub fn summary_row_index(rows: &Vec<OpRow>) -> (r: Option<usize>)
    ensures
        match r {
            Some(i) => summary_of(rows@) == Some(i as int),
            None => summary_of(rows@) is None,
        },
{
    match running(rows) {
        Some(i) => Some(i),
        None => find_tone(rows, Tone::Pending),
    }
}

/// What an unmount in progress says of itself: `waiting` while an
/// operation runs ahead of it, `unmounting` once it has the worker.
pub fn activity_status(rows: &Vec<OpRow>) -> (s: &'static str)
    ensures
        s@ == (if first_tone(tones(rows@), Tone::Running) is Some { "waiting"@ } else { "unmounting"@ }),
{
    if running(rows).is_some() {
        "waiting"
    } else {
        "unmounting"
    }
}

/// The queue row a click at `(x, y)` in the open module's `body` lands on,
/// counting the rows scrolled past and the unmount line above the rows when
/// there is one. Nothing while the module is folded.
pub open spec fn hit_of(body: Rect, folded: bool, unmounting: bool, scroll: int, n_rows: int, x: int, y: int) -> Option<int> {
    let offset = if unmounting { 1int } else { 0int };
    if folded || !body.holds(x, y) || y - body.y < offset {
        None
    } else {
        let index = scroll + (y - body.y) - offset;
        if index < n_rows { Some(index) } else { None }
    }
}

/// The queue row a click lands on.
pub fn hit(body: Rect, folded: bool, unmounting: bool, scroll: usize, n_rows: usize, x: u16, y: u16) -> (r: Option<usize>)
    requires
        scroll + body.height <= usize::MAX,
    ensures
        match r {
            Some(i) => hit_of(body, folded, unmounting, scroll as int, n_rows as int, x as int, y as int) == Some(i as int),
            None => hit_of(body, folded, unmounting, scroll as int, n_rows as int, x as int, y as int) is None,
        },
{
    if folded {
        return None;
    }
    if !crate::geometry::inside(body, x, y) {
        return None;
    }
    let offset: usize = if unmounting { 1 } else { 0 };
    let row = (y - body.y) as usize;
    if row < offset {
        return None;
    }
    let index = scroll + row - offset;
    if index < n_rows {
        Some(index)
    } else {
        None
    }
}

/// The id of the operation actually running: the id beside the first row
/// whose tone says so.
pub fn running_op_id(op_ids: &Vec<OpId>, ops: &Vec<OpRow>) -> (r: Option<OpId>)
    ensures
        r == (match first_tone(tones(ops@), Tone::Running) {
            Some(i) => if i < op_ids@.len() { Some(op_ids@[i]) } else { None },
            None => None,
        }),
{
    match running(ops) {
        Some(i) => if i < op_ids.len() { Some(op_ids[i]) } else { None },
        None => None,
    }
}

} // verus!
