//! Rebuilding what a frame draws from a snapshot of the file manager's
//! core: the trail of parent levels, the open level's rule and rows, the
//! preview when it is for the entry under the cursor, and the queue. A
//! snapshot the view has already seen changes nothing.
use vstd::prelude::*;
use crate::labels::{
    display_name, display_name_of, home_relative, home_relative_of, level_name, level_name_of, op_row_built, row_built,
    build_op_row, build_row, Listed, OpInfo, ViewData,
};
use crate::ops::OpId;
use crate::panels::preview::{size, size_text, Preview};
use crate::panels::stack::{Crumb, Row};
use crate::panels::operations::OpRow;
use crate::places::same_path;
use crate::text::{chars_of, decimal, push_decimal, push_str, string_of};

verus! {

/// One level of the stack as the core holds it.
#[derive(Debug, Clone)]
pub struct FrameSnap {
    pub dir: String,
    /// How many rows the level lists.
    pub rows: usize,
    pub cursor: usize,
    pub filter: String,
    pub loading: bool,
}

/// One listed entry of the open level, with whether it is marked and its
/// time as the listing shows it.
#[derive(Debug)]
pub struct EntrySnap {
    pub entry: Listed,
    pub marked: bool,
    pub time: Option<String>,
}

/// What the core holds, as far as a frame draws it.
#[derive(Debug)]
pub struct CoreSnapshot {
    /// Moves on with every change the core makes.
    pub version: u64,
    pub home: String,
    /// The stack's levels, root first, the open level last.
    pub frames: Vec<FrameSnap>,
    /// The open level's rows, in order.
    pub entries: Vec<EntrySnap>,
    pub any_marked: bool,
    /// The open level's listing error, and whether its read gave up early.
    pub error: Option<String>,
    pub truncated: bool,
    /// Files, directories and bytes of the open level.
    pub dir_stats: Option<(usize, usize, u64)>,
    /// The preview the core has built, and the path it is for.
    pub preview: Option<(String, Preview)>,
    /// The path of the entry under the cursor.
    pub cursor_path: Option<String>,
    /// The selection, summed up.
    pub marked: String,
    pub ops: Vec<OpInfo>,
    pub op_ids: Vec<OpId>,
    pub running_bar: Option<String>,
    pub has_forward: bool,
    pub trash_available: bool,
    pub show_hidden: bool,
    /// Two listings side by side, and which of them has the keyboard.
    pub commander: bool,
    pub commander_pane: usize,
    /// The open level of each stack after the first, for Commander's panes.
    pub panes: Vec<PaneSnap>,
}

/// The open level of one of Commander's stacks.
#[derive(Debug)]
pub struct PaneSnap {
    pub dir: String,
    /// Names the level within its stack.
    pub frame_id: u64,
    pub entries: Vec<EntrySnap>,
    pub any_marked: bool,
    pub cursor: usize,
    pub filter: String,
    pub loading: bool,
    pub error: Option<String>,
    pub truncated: bool,
}

/// What one Commander pane draws.
#[derive(Debug)]
pub struct PaneView {
    pub dir: String,
    /// The stack's index and the level's id: a pane keeps its own scroll
    /// while this stays the same.
    pub key: (usize, u64),
    pub rows: Vec<Row>,
    pub cursor: usize,
    pub filter: String,
    pub loading: bool,
    pub error: Option<String>,
    pub truncated: bool,
}

/// A refreshed frame: the view, and Commander's panes.
#[derive(Debug)]
pub struct Refreshed {
    pub view: ViewData,
    pub commander: bool,
    pub active_pane: usize,
    pub panes: Vec<PaneView>,
}

/// Whether `p` is what the `k`th stack after the first, open at `s`, draws.
pub open spec fn pane_of(p: PaneView, s: PaneSnap, k: int) -> bool {
    &&& p.dir == s.dir
    &&& p.key == ((k + 1) as usize, s.frame_id)
    &&& p.rows@.len() == s.entries@.len()
    &&& forall|q: int| 0 <= q < s.entries@.len() ==> row_built(#[trigger] p.rows@[q], s.entries@[q].entry, s.any_marked,
        s.entries@[q].marked, s.entries@[q].time)
    &&& p.cursor == s.cursor
    &&& p.filter == s.filter
    &&& p.loading == s.loading
    &&& p.error == s.error
    &&& p.truncated == s.truncated
}

/// Whether `r` is the refreshed frame of `snap`.
pub open spec fn refreshed_of(r: Refreshed, snap: CoreSnapshot) -> bool {
    &&& view_of(r.view, snap)
    &&& r.commander == snap.commander
    &&& r.active_pane == snap.commander_pane
    &&& r.panes@.len() == snap.panes@.len()
    &&& forall|k: int| 0 <= k < snap.panes@.len() ==> pane_of(#[trigger] r.panes@[k], snap.panes@[k], k)
}

fn rows_of_entries(entries: &Vec<EntrySnap>, any_marked: bool) -> (rows: Vec<Row>)
    ensures
        rows@.len() == entries@.len(),
        forall|q: int| 0 <= q < entries@.len() ==> row_built(#[trigger] rows@[q], entries@[q].entry, any_marked,
            entries@[q].marked, entries@[q].time),
{
    let mut rows: Vec<Row> = Vec::new();
    let mut j: usize = 0;
    while j < entries.len()
        invariant
            j <= entries@.len(),
            rows@.len() == j,
            forall|q: int| 0 <= q < j ==> row_built(#[trigger] rows@[q], entries@[q].entry, any_marked,
                entries@[q].marked, entries@[q].time),
        decreases entries@.len() - j,
    {
        let e = &entries[j];
        let time = match &e.time {
            Some(t) => Some(t.clone()),
            None => None,
        };
        rows.push(build_row(&e.entry, any_marked, e.marked, time));
        j = j + 1;
    }
    rows
}

fn pane_views(panes: &Vec<PaneSnap>) -> (r: Vec<PaneView>)
    requires
        panes@.len() < usize::MAX,
    ensures
        r@.len() == panes@.len(),
        forall|k: int| 0 <= k < panes@.len() ==> pane_of(#[trigger] r@[k], panes@[k], k),
{
    let mut r: Vec<PaneView> = Vec::new();
    let mut k: usize = 0;
    while k < panes.len()
        invariant
            panes@.len() < usize::MAX,
            k <= panes@.len(),
            r@.len() == k,
            forall|j: int| 0 <= j < k ==> pane_of(#[trigger] r@[j], panes@[j], j),
        decreases panes@.len() - k,
    {
        let p = &panes[k];
        let error = match &p.error {
            Some(e) => Some(e.clone()),
            None => None,
        };
        r.push(PaneView {
            dir: p.dir.clone(),
            key: (k + 1, p.frame_id),
            rows: rows_of_entries(&p.entries, p.any_marked),
            cursor: p.cursor,
            filter: p.filter.clone(),
            loading: p.loading,
            error,
            truncated: p.truncated,
        });
        k = k + 1;
    }
    r
}

/// The open level's rule: its name, then its counts and size when known.
pub open spec fn rule_of(name: Seq<char>, stats: Option<(usize, usize, u64)>) -> Seq<char> {
    match stats {
        Some((files, dirs, bytes)) => name + " \u{2500}\u{2500} "@ + decimal(files as nat) + " files \u{b7} "@
            + decimal(dirs as nat) + " dirs \u{b7} "@ + size_text(bytes as nat),
        None => name,
    }
}

/// Whether the core's preview is for the entry under the cursor.
pub open spec fn preview_current(snap: CoreSnapshot) -> bool {
    snap.preview matches Some((path, _)) && snap.cursor_path matches Some(c) && same_path(path@, c@)
}

/// Whether `v` is the view of `snap`: the parents as crumbs named from
/// home with their row counts, the open level's rule, rows, cursor,
/// filter and location, the preview only when it is for the cursor's
/// entry, and the queue's rows.
pub open spec fn view_of(v: ViewData, snap: CoreSnapshot) -> bool {
    let n = snap.frames@.len();
    let active = snap.frames@[n - 1];
    let home = snap.home@;
    &&& v.crumbs@.len() == n - 1
    &&& forall|k: int| 0 <= k < n - 1 ==> #[trigger] v.crumbs@[k].name@ == level_name_of(snap.frames@[k].dir@, home)
        && v.crumbs@[k].count == Some(snap.frames@[k].rows)
    &&& v.rule@ == rule_of(level_name_of(active.dir@, home), snap.dir_stats)
    &&& v.rows@.len() == snap.entries@.len()
    &&& forall|k: int| 0 <= k < snap.entries@.len() ==> row_built(#[trigger] v.rows@[k], snap.entries@[k].entry,
        snap.any_marked, snap.entries@[k].marked, snap.entries@[k].time)
    &&& v.cursor == active.cursor
    &&& v.cursor_path == snap.cursor_path
    &&& v.loading == active.loading
    &&& v.error == snap.error
    &&& v.truncated == snap.truncated
    &&& v.filter == active.filter
    &&& v.marked == snap.marked
    &&& v.dir_stats == snap.dir_stats
    &&& v.active_dir == active.dir
    &&& v.home == snap.home
    &&& v.location@ == home_relative_of(active.dir@, home)
    &&& (if preview_current(snap) {
        match snap.preview {
            Some((path, pv)) => v.preview_name matches Some(p) && p@ == display_name_of(path@) && v.preview == Some(pv),
            None => false,
        }
    } else {
        v.preview_name is None && v.preview is None
    })
    &&& v.ops@.len() == snap.ops@.len()
    &&& forall|k: int| 0 <= k < snap.ops@.len() ==> op_row_built(#[trigger] v.ops@[k], snap.ops@[k], home)
    &&& v.op_ids@ == snap.op_ids@
    &&& v.running_bar == snap.running_bar
    &&& v.has_forward == snap.has_forward
    &&& v.trash_available == snap.trash_available
    &&& v.show_hidden == snap.show_hidden
}

fn rule_text(name: &str, stats: Option<(usize, usize, u64)>) -> (s: String)
    ensures
        s@ == rule_of(name@, stats),
{
    match stats {
        Some((files, dirs, bytes)) => {
            let mut out = chars_of(name);
            push_str(&mut out, " \u{2500}\u{2500} ");
            push_decimal(&mut out, files as u64);
            push_str(&mut out, " files \u{b7} ");
            push_decimal(&mut out, dirs as u64);
            push_str(&mut out, " dirs \u{b7} ");
            push_str(&mut out, size(bytes).as_str());
            string_of(out.as_slice())
        },
        None => string_of(chars_of(name).as_slice()),
    }
}

/// The frame of `snap`, unless the view has already seen its version.
pub fn refresh_view(snap: CoreSnapshot, seen: u64) -> (r: Option<Refreshed>)
    requires
        snap.frames@.len() > 0,
        snap.panes@.len() < usize::MAX,
    ensures
        r is None <==> snap.version == seen,
        r matches Some(v) ==> refreshed_of(v, snap),
{
    if snap.version == seen {
        return None;
    }
    let ghost s0 = snap;
    let mut snap = snap;
    let panes = pane_views(&snap.panes);
    let n = snap.frames.len();
    let home = snap.home;
    let mut crumbs: Vec<Crumb> = Vec::new();
    let mut k: usize = 0;
    while k < n - 1
        invariant
            n == s0.frames@.len(),
            n > 0,
            snap.frames@ == s0.frames@,
            home == s0.home,
            k <= n - 1,
            crumbs@.len() == k,
            forall|j: int| 0 <= j < k ==> #[trigger] crumbs@[j].name@ == level_name_of(s0.frames@[j].dir@, home@)
                && crumbs@[j].count == Some(s0.frames@[j].rows),
        decreases n - 1 - k,
    {
        let f = &snap.frames[k];
        crumbs.push(Crumb { name: level_name(f.dir.as_str(), home.as_str()), count: Some(f.rows) });
        k = k + 1;
    }
    let active = &snap.frames[n - 1];
    let name = level_name(active.dir.as_str(), home.as_str());
    let rule = rule_text(name.as_str(), snap.dir_stats);
    let rows = rows_of_entries(&snap.entries, snap.any_marked);
    let mut ops: Vec<OpRow> = Vec::new();
    let mut q: usize = 0;
    while q < snap.ops.len()
        invariant
            snap.ops@ == s0.ops@,
            home == s0.home,
            q <= s0.ops@.len(),
            ops@.len() == q,
            forall|p: int| 0 <= p < q ==> op_row_built(#[trigger] ops@[p], s0.ops@[p], home@),
        decreases s0.ops@.len() - q,
    {
        ops.push(build_op_row(&snap.ops[q], home.as_str()));
        q = q + 1;
    }
    let current = match (&snap.preview, &snap.cursor_path) {
        (Some((path, _)), Some(c)) => crate::places::path_eq(chars_of(path.as_str()).as_slice(), chars_of(c.as_str()).as_slice()),
        _ => false,
    };
    let (preview_name, preview) = if current {
        match snap.preview {
            Some((path, p)) => (Some(display_name(path.as_str())), Some(p)),
            None => (None, None),
        }
    } else {
        (None, None)
    };
    let location = home_relative(active.dir.as_str(), home.as_str());
    let active = snap.frames.pop();
    let v = match active {
        Some(a) => ViewData {
            crumbs,
            rule,
            rows,
            cursor: a.cursor,
            cursor_path: snap.cursor_path,
            loading: a.loading,
            error: snap.error,
            truncated: snap.truncated,
            filter: a.filter,
            marked: snap.marked,
            dir_stats: snap.dir_stats,
            active_dir: a.dir,
            home,
            location,
            preview_name,
            preview,
            ops,
            op_ids: snap.op_ids,
            running_bar: snap.running_bar,
            has_forward: snap.has_forward,
            trash_available: snap.trash_available,
            show_hidden: snap.show_hidden,
        },
        None => return None,
    };
    Some(Refreshed { view: v, commander: snap.commander, active_pane: snap.commander_pane, panes })
}

/// The Places picker, while open, takes the core's places and their state.
pub fn refresh_places(p: &mut crate::places::Places, items: Vec<crate::places::PlaceItem>, loading: bool,
    error: Option<String>, unmounting: Option<String>)
    requires
        old(p).wf(),
    ensures
        final(p).wf(),
        final(p).state() == (crate::places::PlacesV { loading, ..crate::places::set_items_step(old(p).state(), items@) }),
        final(p).status_view() == (crate::places::opt_view(unmounting), old(p).status_view().1, crate::places::opt_view(error)),
{
    p.set_items(items);
    p.set_status(loading, error, unmounting);
}

/// The sum of the rows of the pages numbered below `before`.
pub open spec fn rows_before(pages: Seq<(u32, usize)>, before: u32) -> int
    decreases pages.len(),
{
    if pages.len() == 0 {
        0
    } else {
        rows_before(pages.drop_last(), before) + (if pages.last().0 < before { pages.last().1 as int } else { 0 })
    }
}

/// A document's scroll carried from the pages it showed to the pages it
/// shows now, by page number and rows: when the new pages start later, the
/// rows of the old pages before them are taken off; when they start
/// earlier, the rows of the new pages before the old start are added; the
/// scroll never goes below zero or past the largest count.
pub open spec fn carried_scroll_of(scroll: usize, old_pages: Seq<(u32, usize)>, new_pages: Seq<(u32, usize)>) -> usize {
    if old_pages.len() == 0 || new_pages.len() == 0 {
        scroll
    } else {
        let a0 = old_pages[0].0;
        let b0 = new_pages[0].0;
        if b0 > a0 {
            let t = scroll - rows_before(old_pages, b0);
            (if t < 0 { 0 } else { t }) as usize
        } else if b0 < a0 {
            let t = scroll + rows_before(new_pages, a0);
            (if t > usize::MAX { usize::MAX as int } else { t }) as usize
        } else {
            scroll
        }
    }
}

fn rows_before_exec(pages: &Vec<(u32, usize)>, before: u32) -> (r: u128)
    requires
        pages@.len() < 0x1_0000_0000,
    ensures
        r == rows_before(pages@, before),
        r <= pages@.len() * 0x1_0000_0000_0000_0000,
{
    let mut total: u128 = 0;
    let mut k: usize = 0;
    while k < pages.len()
        invariant
            k <= pages@.len(),
            pages@.len() < 0x1_0000_0000,
            total == rows_before(pages@.take(k as int), before),
            total <= k * 0x1_0000_0000_0000_0000,
        decreases pages@.len() - k,
    {
        assert(pages@.take(k + 1).drop_last() =~= pages@.take(k as int));
        if pages[k].0 < before {
            total = total + pages[k].1 as u128;
        }
        k = k + 1;
    }
    assert(pages@.take(pages@.len() as int) =~= pages@);
    total
}

/// A document's scroll carried over a change of its loaded pages.
pub fn carried_scroll(scroll: usize, old_pages: &Vec<(u32, usize)>, new_pages: &Vec<(u32, usize)>) -> (r: usize)
    requires
        old_pages@.len() < 0x1_0000_0000,
        new_pages@.len() < 0x1_0000_0000,
    ensures
        r == carried_scroll_of(scroll, old_pages@, new_pages@),
{
    if old_pages.len() == 0 || new_pages.len() == 0 {
        return scroll;
    }
    let a0 = old_pages[0].0;
    let b0 = new_pages[0].0;
    if b0 > a0 {
        let off = rows_before_exec(old_pages, b0);
        if off >= scroll as u128 { 0 } else { (scroll as u128 - off) as usize }
    } else if b0 < a0 {
        let add = rows_before_exec(new_pages, a0);
        let t = scroll as u128 + add;
        if t > usize::MAX as u128 { usize::MAX } else { t as usize }
    } else {
        scroll
    }
}

} // verus!
