//! What an action does to the interface: which request goes to the file
//! manager's core, which overlay opens, how focus, the filter and the
//! preview change, and what is left for the caller's own state (moving a
//! cursor, opening Places, running the queue). Nothing here touches the
//! disk: only the requests do, once the caller sends them on.
use vstd::prelude::*;
use crate::keymap::Action;
use crate::layout::LayoutState;
use crate::ops::OpId;
use crate::overlays::context::{Action as MenuAction, Request as MenuRequest};
use crate::panels::ModuleId;

verus! {

/// The interface state an action may change.
#[derive(Debug)]
pub struct AppState {
    pub layout: LayoutState,
    /// The `/` filter's text while its entry is open.
    pub filter: Option<String>,
    /// The file the preview was last asked for, so it is asked again after
    /// a change of view.
    pub last_preview_for: Option<String>,
    pub quit: bool,
    pub repaint: bool,
}

/// What of the current view an action reads.
#[derive(Debug, Clone)]
pub struct ActView {
    /// Two listings side by side in place of the stack.
    pub commander: bool,
    /// Which of the two panes has the keyboard.
    pub active_pane: usize,
    /// How many parent levels the trail shows.
    pub crumbs: usize,
    pub cursor_path: Option<String>,
    /// The file the embedded player plays, while one is up.
    pub audio_path: Option<String>,
    pub home: String,
    pub show_hidden: bool,
    /// The filter the listing has now.
    pub filter: String,
    /// The operation running now, and its title.
    pub running: Option<(OpId, String)>,
    /// The operation under the queue's cursor.
    pub op_at_cursor: Option<OpId>,
    /// How many operations are queued.
    pub ops: usize,
}

/// What the core is asked to do.
#[derive(Debug, Clone, PartialEq, Eq)]
pub enum Request {
    ToggleView,
    FocusPane(usize),
    /// Run the queue.
    Run,
    ClearFilter,
    /// Back one level.
    Back,
    JumpTo(usize),
    Forward,
    Push(String),
    /// Push the filesystem root, `/`.
    PushRoot,
    OpenExternal(String),
    Reload,
    ToggleMark,
    MarkAll,
    InvertMarks,
    ClearMarks,
    QueueCopyHere,
    QueueMoveHere,
    QueueDelete,
    Cancel(OpId),
    RemoveOp(OpId),
    ClearQueue,
    ClosePreview,
    SetHidden(bool),
    /// The sort the view shows, its key moved on to the next.
    NextSortKey,
    /// The sort the view shows, reversed.
    ReverseSort,
    /// Move the listing's cursor by rows.
    CursorBy(i32),
    /// Put the listing's cursor on a row, the last when past the end.
    CursorTo(usize),
    /// Mark or unmark one path.
    ToggleMarkPath(String),
    /// Queue deleting these paths.
    QueueDeleteSources(Vec<String>),
    /// Build the preview of a path.
    Preview(String),
}

/// An overlay an action opens.
#[derive(Debug, Clone, PartialEq, Eq)]
pub enum Opens {
    Rename(String),
    /// Ask before clearing a queue of this many while one runs.
    ClearQueue(usize),
    /// Ask before quitting while the operation of this title runs.
    QuitWithRunning(String),
    Help,
    /// Ask before running the queue's next operation, a permanent delete of
    /// this many.
    DeletePermanently(OpId, usize),
}

/// What is left for the caller, on state of its own.
#[derive(Debug, Clone, Copy, PartialEq, Eq)]
pub enum Follow {
    /// Move the focused module's cursor or scroll by rows.
    Move(i32),
    /// A page of the focused module.
    Page { down: bool },
    /// To the top or the bottom of the focused module.
    Edge { top: bool },
    /// Open the entry under the cursor.
    ActivateEntry,
    OpenPlaces { bookmark: bool },
    /// Run the queue, asking first if it would delete for good.
    TryRun,
    Theme { forward: bool },
    NextPictureScale,
    StopAudio,
    /// Rebuild the view from the core.
    Refresh,
    /// The file actions menu.
    FileMenu,
}

/// An action's outcome.
#[derive(Debug)]
pub struct ActStep {
    pub state: AppState,
    pub request: Option<Request>,
    pub opens: Option<Opens>,
    pub follow: Option<Follow>,
}

/// The layout with focus on `m`, as `LayoutState::focus_set` leaves it.
pub open spec fn focused(l: LayoutState, m: ModuleId) -> LayoutState {
    LayoutState { focus: m, preview_open: l.preview_open || m == ModuleId::Preview, ..l }
}

/// The layout with focus on the next or the previous module of the column.
pub open spec fn focus_moved(l: LayoutState, forward: bool) -> LayoutState {
    let i = crate::panels::index_of(l.focus);
    focused(l, crate::panels::column_order()[if forward { (i + 1) % 3 } else { (i + 2) % 3 }])
}

/// The layout with the preview opened or folded, as
/// `LayoutState::toggle_preview` leaves it.
pub open spec fn preview_toggled(l: LayoutState) -> LayoutState {
    LayoutState {
        preview_open: !l.preview_open,
        focus: if l.preview_open && l.focus == ModuleId::Preview { ModuleId::Stack } else { l.focus },
        ..l
    }
}

/// An outcome that changes nothing but may ask one thing.
pub open spec fn only(s: AppState, request: Option<Request>, opens: Option<Opens>, follow: Option<Follow>) -> ActStep {
    ActStep { state: s, request, opens, follow }
}

/// Focus on the stack after a change of view: the filter closes and the
/// preview is asked again.
pub open spec fn to_stack(s: AppState) -> AppState {
    AppState { filter: None, layout: focused(s.layout, ModuleId::Stack), last_preview_for: None, ..s }
}

/// What action `a` does in state `s` over the view `v`.
pub open spec fn act_of(s: AppState, v: ActView, a: Action) -> ActStep {
    match a {
        Action::ToggleView => only(to_stack(s), Some(Request::ToggleView), None, Some(Follow::Refresh)),
        Action::Places => only(s, None, None, Some(Follow::OpenPlaces { bookmark: false })),
        Action::Bookmark => only(s, None, None, Some(Follow::OpenPlaces { bookmark: true })),
        Action::CursorUp => only(s, None, None, Some(Follow::Move(-1i32))),
        Action::CursorDown => only(s, None, None, Some(Follow::Move(1i32))),
        Action::CursorUpBig => only(s, None, None, Some(Follow::Move(-10i32))),
        Action::CursorDownBig => only(s, None, None, Some(Follow::Move(10i32))),
        Action::PageUp => only(s, None, None, Some(Follow::Page { down: false })),
        Action::PageDown => only(s, None, None, Some(Follow::Page { down: true })),
        Action::Home => only(s, None, None, Some(Follow::Edge { top: true })),
        Action::End => only(s, None, None, Some(Follow::Edge { top: false })),
        Action::Activate => match s.layout.focus {
            ModuleId::Stack => only(s, None, None, Some(Follow::ActivateEntry)),
            ModuleId::Operations => only(s, Some(Request::Run), None, None),
            ModuleId::Preview => only(s, None, None, None),
        },
        Action::Back => if s.filter is Some {
            only(AppState { filter: None, ..s }, Some(Request::ClearFilter), None, None)
        } else {
            only(s, None, None, None)
        },
        Action::FocusNext | Action::FocusPrev => if v.commander {
            only(to_stack(s), Some(Request::FocusPane(if v.active_pane == 1 { 0 } else { 1 })), None, Some(Follow::Refresh))
        } else {
            only(AppState { layout: focus_moved(s.layout, a == Action::FocusNext), ..s }, None, None, None)
        },
        Action::FocusStack => only(AppState { layout: focused(s.layout, ModuleId::Stack), ..s }, None, None, None),
        Action::FocusPreview => only(AppState { layout: focused(s.layout, ModuleId::Preview), ..s }, None, None, None),
        Action::FocusOperations => only(AppState { layout: focused(s.layout, ModuleId::Operations), ..s }, None, None, None),
        Action::Enter => only(s, None, None, Some(Follow::ActivateEntry)),
        Action::Pop => only(s, Some(Request::Back), None, None),
        Action::JumpUp => only(s, Some(Request::JumpTo(if v.crumbs > 0 { (v.crumbs - 1) as usize } else { 0 })), None, None),
        Action::JumpDown => only(s, Some(Request::Forward), None, None),
        Action::GoHome => only(s, Some(Request::Push(v.home)), None, None),
        Action::GoRoot => only(s, Some(Request::PushRoot), None, None),
        Action::OpenExternal => {
            let path = if s.layout.focus == ModuleId::Preview && v.audio_path is Some { v.audio_path } else { v.cursor_path };
            match path {
                Some(p) => only(s, Some(Request::OpenExternal(p)), None, None),
                None => only(s, None, None, None),
            }
        },
        Action::Rename => match v.cursor_path {
            Some(p) => only(AppState { repaint: true, ..s }, None, Some(Opens::Rename(p)), None),
            None => only(s, None, None, None),
        },
        Action::FileActions => only(s, None, None, Some(Follow::FileMenu)),
        Action::Reload => only(s, Some(Request::Reload), None, None),
        Action::Mark => only(s, Some(Request::ToggleMark), None, None),
        Action::MarkAll => only(s, Some(Request::MarkAll), None, None),
        Action::InvertMarks => only(s, Some(Request::InvertMarks), None, None),
        Action::ClearMarks => only(s, Some(Request::ClearMarks), None, None),
        Action::QueueCopy => only(s, Some(Request::QueueCopyHere), None, None),
        Action::QueueMove => only(s, Some(Request::QueueMoveHere), None, None),
        Action::QueueDelete => only(s, Some(Request::QueueDelete), None, None),
        Action::RunQueue | Action::RunOp => only(s, None, None, Some(Follow::TryRun)),
        Action::CancelRun => match v.running {
            Some((id, _)) => only(s, Some(Request::Cancel(id)), None, None),
            None => only(s, None, None, None),
        },
        Action::DropOp => match v.op_at_cursor {
            Some(id) => only(s, Some(Request::RemoveOp(id)), None, None),
            None => only(s, None, None, None),
        },
        Action::ClearQueue => if v.running is Some {
            only(AppState { repaint: true, ..s }, None, Some(Opens::ClearQueue(v.ops)), None)
        } else {
            only(s, Some(Request::ClearQueue), None, None)
        },
        Action::TogglePreview => if s.layout.preview_open {
            only(AppState { layout: preview_toggled(s.layout), last_preview_for: None, ..s }, Some(Request::ClosePreview), None,
                Some(Follow::StopAudio))
        } else {
            only(AppState { layout: preview_toggled(s.layout), ..s }, None, None, None)
        },
        Action::ToggleHidden => only(s, Some(Request::SetHidden(!v.show_hidden)), None, None),
        Action::NextSortKey => only(s, Some(Request::NextSortKey), None, None),
        Action::ReverseSort => only(s, Some(Request::ReverseSort), None, None),
        Action::Filter => only(AppState { filter: Some(v.filter), ..s }, None, None, None),
        Action::NextPictureScale => only(s, None, None, Some(Follow::NextPictureScale)),
        Action::NextTheme => only(s, None, None, Some(Follow::Theme { forward: true })),
        Action::PrevTheme => only(s, None, None, Some(Follow::Theme { forward: false })),
        Action::Help => only(AppState { repaint: true, ..s }, None, Some(Opens::Help), None),
        Action::Quit => match v.running {
            Some((_, title)) => only(AppState { repaint: true, ..s }, None, Some(Opens::QuitWithRunning(title)), None),
            None => only(AppState { quit: true, ..s }, None, None, None),
        },
        Action::Redraw => only(AppState { repaint: true, ..s }, None, None, None),
    }
}


fn opt_clone(o: &Option<String>) -> (r: Option<String>)
    ensures
        r == *o,
{
    match o {
        Some(t) => Some(t.clone()),
        None => None,
    }
}

fn step(state: AppState, request: Option<Request>, opens: Option<Opens>, follow: Option<Follow>) -> (r: ActStep)
    ensures
        r == only(state, request, opens, follow),
{
    ActStep { state, request, opens, follow }
}

/// Focus on the stack after a change of view.
fn go_stack(mut s: AppState) -> (r: AppState)
    ensures
        r == to_stack(s),
{
    s.layout.focus_set(ModuleId::Stack);
    AppState { filter: None, last_preview_for: None, ..s }
}

/// What action `a` does in state `s` over the view `v`.
pub fn act_step(s: AppState, v: &ActView, a: Action) -> (r: ActStep)
    ensures
        r == act_of(s, *v, a),
{
    let mut s = s;
    match a {
        Action::ToggleView => step(go_stack(s), Some(Request::ToggleView), None, Some(Follow::Refresh)),
        Action::Places => step(s, None, None, Some(Follow::OpenPlaces { bookmark: false })),
        Action::Bookmark => step(s, None, None, Some(Follow::OpenPlaces { bookmark: true })),
        Action::CursorUp => step(s, None, None, Some(Follow::Move(-1i32))),
        Action::CursorDown => step(s, None, None, Some(Follow::Move(1i32))),
        Action::CursorUpBig => step(s, None, None, Some(Follow::Move(-10i32))),
        Action::CursorDownBig => step(s, None, None, Some(Follow::Move(10i32))),
        Action::PageUp => step(s, None, None, Some(Follow::Page { down: false })),
        Action::PageDown => step(s, None, None, Some(Follow::Page { down: true })),
        Action::Home => step(s, None, None, Some(Follow::Edge { top: true })),
        Action::End => step(s, None, None, Some(Follow::Edge { top: false })),
        Action::Activate => match s.layout.focus {
            ModuleId::Stack => step(s, None, None, Some(Follow::ActivateEntry)),
            ModuleId::Operations => step(s, Some(Request::Run), None, None),
            ModuleId::Preview => step(s, None, None, None),
        },
        Action::Back => if s.filter.is_some() {
            step(AppState { filter: None, ..s }, Some(Request::ClearFilter), None, None)
        } else {
            step(s, None, None, None)
        },
        Action::FocusNext | Action::FocusPrev => if v.commander {
            let pane: usize = if v.active_pane == 1 { 0 } else { 1 };
            step(go_stack(s), Some(Request::FocusPane(pane)), None, Some(Follow::Refresh))
        } else {
            match a {
                Action::FocusNext => s.layout.focus_next(),
                _ => s.layout.focus_prev(),
            }
            step(s, None, None, None)
        },
        Action::FocusStack => {
            s.layout.focus_set(ModuleId::Stack);
            step(s, None, None, None)
        },
        Action::FocusPreview => {
            s.layout.focus_set(ModuleId::Preview);
            step(s, None, None, None)
        },
        Action::FocusOperations => {
            s.layout.focus_set(ModuleId::Operations);
            step(s, None, None, None)
        },
        Action::Enter => step(s, None, None, Some(Follow::ActivateEntry)),
        Action::Pop => step(s, Some(Request::Back), None, None),
        Action::JumpUp => {
            let target: usize = if v.crumbs > 0 { v.crumbs - 1 } else { 0 };
            step(s, Some(Request::JumpTo(target)), None, None)
        },
        Action::JumpDown => step(s, Some(Request::Forward), None, None),
        Action::GoHome => step(s, Some(Request::Push(v.home.clone())), None, None),
        Action::GoRoot => step(s, Some(Request::PushRoot), None, None),
        Action::OpenExternal => {
            let path = if s.layout.focus == ModuleId::Preview && v.audio_path.is_some() {
                opt_clone(&v.audio_path)
            } else {
                opt_clone(&v.cursor_path)
            };
            match path {
                Some(p) => step(s, Some(Request::OpenExternal(p)), None, None),
                None => step(s, None, None, None),
            }
        },
        Action::Rename => match opt_clone(&v.cursor_path) {
            Some(p) => step(AppState { repaint: true, ..s }, None, Some(Opens::Rename(p)), None),
            None => step(s, None, None, None),
        },
        Action::FileActions => step(s, None, None, Some(Follow::FileMenu)),
        Action::Reload => step(s, Some(Request::Reload), None, None),
        Action::Mark => step(s, Some(Request::ToggleMark), None, None),
        Action::MarkAll => step(s, Some(Request::MarkAll), None, None),
        Action::InvertMarks => step(s, Some(Request::InvertMarks), None, None),
        Action::ClearMarks => step(s, Some(Request::ClearMarks), None, None),
        Action::QueueCopy => step(s, Some(Request::QueueCopyHere), None, None),
        Action::QueueMove => step(s, Some(Request::QueueMoveHere), None, None),
        Action::QueueDelete => step(s, Some(Request::QueueDelete), None, None),
        Action::RunQueue | Action::RunOp => step(s, None, None, Some(Follow::TryRun)),
        Action::CancelRun => match &v.running {
            Some((id, _)) => step(s, Some(Request::Cancel(*id)), None, None),
            None => step(s, None, None, None),
        },
        Action::DropOp => match v.op_at_cursor {
            Some(id) => step(s, Some(Request::RemoveOp(id)), None, None),
            None => step(s, None, None, None),
        },
        Action::ClearQueue => if v.running.is_some() {
            step(AppState { repaint: true, ..s }, None, Some(Opens::ClearQueue(v.ops)), None)
        } else {
            step(s, Some(Request::ClearQueue), None, None)
        },
        Action::TogglePreview => if s.layout.preview_open {
            s.layout.toggle_preview();
            step(AppState { last_preview_for: None, ..s }, Some(Request::ClosePreview), None, Some(Follow::StopAudio))
        } else {
            s.layout.toggle_preview();
            step(s, None, None, None)
        },
        Action::ToggleHidden => step(s, Some(Request::SetHidden(!v.show_hidden)), None, None),
        Action::NextSortKey => step(s, Some(Request::NextSortKey), None, None),
        Action::ReverseSort => step(s, Some(Request::ReverseSort), None, None),
        Action::Filter => step(AppState { filter: Some(v.filter.clone()), ..s }, None, None, None),
        Action::NextPictureScale => step(s, None, None, Some(Follow::NextPictureScale)),
        Action::NextTheme => step(s, None, None, Some(Follow::Theme { forward: true })),
        Action::PrevTheme => step(s, None, None, Some(Follow::Theme { forward: false })),
        Action::Help => step(AppState { repaint: true, ..s }, None, Some(Opens::Help), None),
        Action::Quit => match &v.running {
            Some((_, title)) => step(AppState { repaint: true, ..s }, None, Some(Opens::QuitWithRunning(title.clone())), None),
            None => step(AppState { quit: true, ..s }, None, None, None),
        },
        Action::Redraw => step(AppState { repaint: true, ..s }, None, None, None),
    }
}

/// Nothing an action does runs the queue but `enter` on the focused queue,
/// which asks the core to run, and the run keys, which leave it to the
/// caller to run after asking about a permanent delete; queueing only
/// queues.
pub proof fn law_only_the_run_keys_run_the_queue(s: AppState, v: ActView, a: Action)
    ensures
        act_of(s, v, a).request == Some(Request::Run) <==> (a == Action::Activate && s.layout.focus == ModuleId::Operations),
        act_of(s, v, a).follow == Some(Follow::TryRun) <==> (a == Action::RunQueue || a == Action::RunOp),
{
}

/// Quitting with an operation running asks first and leaves the quit flag
/// as it was; with none running it quits. Clearing the queue likewise asks
/// while an operation runs.
pub proof fn law_quitting_asks_while_an_operation_runs(s: AppState, v: ActView)
    ensures
        v.running matches Some((_, title)) ==> act_of(s, v, Action::Quit).state.quit == s.quit
            && act_of(s, v, Action::Quit).opens == Some(Opens::QuitWithRunning(title)),
        v.running is None ==> act_of(s, v, Action::Quit).state.quit && act_of(s, v, Action::Quit).opens is None,
        act_of(s, v, Action::ClearQueue).request == Some(Request::ClearQueue) <==> v.running is None,
{
}

/// `alt+up` jumps to the nearest parent level shown in the trail and
/// `alt+down` goes forward again.
pub proof fn law_the_jumps_go_up_and_down_the_stack(s: AppState, v: ActView)
    ensures
        act_of(s, v, Action::JumpUp).request == Some(Request::JumpTo(if v.crumbs > 0 { (v.crumbs - 1) as usize } else { 0 })),
        act_of(s, v, Action::JumpDown).request == Some(Request::Forward),
{
}

/// An action only ever opens the preview when it moves focus onto it, and
/// the focused module is always open afterwards if it was before.
pub proof fn law_the_focused_preview_stays_open(s: AppState, v: ActView, a: Action)
    requires
        s.layout.focus == ModuleId::Preview ==> s.layout.preview_open,
    ensures
        act_of(s, v, a).state.layout.focus == ModuleId::Preview ==> act_of(s, v, a).state.layout.preview_open,
{
}


/// The scroll and cursor positions the interface keeps itself.
#[derive(Debug, Clone, Copy, PartialEq, Eq, Structural)]
pub struct Cursors {
    pub preview_scroll: usize,
    pub ops_cursor: usize,
}

/// Moving the focused module by `delta` rows: the preview scrolls, never
/// above its top; the queue's cursor stays on a row; the listing's cursor
/// is the core's to move.
pub open spec fn move_of(focus: ModuleId, c: Cursors, ops: usize, delta: i32) -> (Cursors, Option<Request>) {
    match focus {
        ModuleId::Preview => {
            let to = c.preview_scroll + delta;
            (Cursors { preview_scroll: (if to < 0 { 0 } else if to > usize::MAX { usize::MAX as int } else { to }) as usize, ..c }, None)
        },
        ModuleId::Operations => if ops == 0 {
            (c, None)
        } else {
            let to = c.ops_cursor + delta;
            (Cursors { ops_cursor: (if to < 0 { 0 } else if to > ops - 1 { ops - 1 } else { to }) as usize, ..c }, None)
        },
        ModuleId::Stack => (c, Some(Request::CursorBy(delta))),
    }
}

/// Moving the focused module's cursor by `delta` rows.
pub fn move_focused(focus: ModuleId, c: Cursors, ops: usize, delta: i32) -> (r: (Cursors, Option<Request>))
    ensures
        r == move_of(focus, c, ops, delta),
{
    match focus {
        ModuleId::Preview => {
            let to: i128 = c.preview_scroll as i128 + delta as i128;
            let ps: usize = if to < 0 { 0 } else if to > usize::MAX as i128 { usize::MAX } else { to as usize };
            (Cursors { preview_scroll: ps, ..c }, None)
        },
        ModuleId::Operations => if ops == 0 {
            (c, None)
        } else {
            let to: i128 = c.ops_cursor as i128 + delta as i128;
            let oc: usize = if to < 0 { 0 } else if to > (ops - 1) as i128 { ops - 1 } else { to as usize };
            (Cursors { ops_cursor: oc, ..c }, None)
        },
        ModuleId::Stack => (c, Some(Request::CursorBy(delta))),
    }
}

/// To the top or the bottom of the focused module.
pub open spec fn edge_of(focus: ModuleId, c: Cursors, ops: usize, top: bool) -> (Cursors, Option<Request>) {
    match focus {
        ModuleId::Preview => (Cursors { preview_scroll: if top { 0 } else { usize::MAX }, ..c }, None),
        ModuleId::Operations => (Cursors { ops_cursor: if top || ops == 0 { 0 } else { (ops - 1) as usize }, ..c }, None),
        ModuleId::Stack => (c, Some(Request::CursorTo(if top { 0 } else { usize::MAX }))),
    }
}

/// To the top or the bottom of the focused module.
pub fn move_to_edge(focus: ModuleId, c: Cursors, ops: usize, top: bool) -> (r: (Cursors, Option<Request>))
    ensures
        r == edge_of(focus, c, ops, top),
{
    match focus {
        ModuleId::Preview => (Cursors { preview_scroll: if top { 0 } else { usize::MAX }, ..c }, None),
        ModuleId::Operations => (Cursors { ops_cursor: if top || ops == 0 { 0 } else { ops - 1 }, ..c }, None),
        ModuleId::Stack => (c, Some(Request::CursorTo(if top { 0 } else { usize::MAX }))),
    }
}

/// The queue's next operation as running it needs to know it: its id,
/// whether it deletes for good, and how many sources it has.
#[derive(Debug, Clone, Copy, PartialEq, Eq, Structural)]
pub struct NextOp {
    pub id: OpId,
    pub permanent_delete: bool,
    pub sources: usize,
}

/// Running the queue: when asked to confirm deletes and the next operation
/// deletes for good, the question opens; otherwise the core runs it.
pub open spec fn run_of(confirm_delete: bool, next: Option<NextOp>) -> (Option<Opens>, Option<Request>) {
    match next {
        Some(n) => if confirm_delete && n.permanent_delete {
            (Some(Opens::DeletePermanently(n.id, n.sources)), None)
        } else {
            (None, Some(Request::Run))
        },
        None => (None, Some(Request::Run)),
    }
}

/// Running the queue, asking first before a permanent delete when asked to.
pub fn try_run(confirm_delete: bool, next: Option<NextOp>) -> (r: (Option<Opens>, Option<Request>))
    ensures
        r == run_of(confirm_delete, next),
{
    match next {
        Some(n) => if confirm_delete && n.permanent_delete {
            (Some(Opens::DeletePermanently(n.id, n.sources)), None)
        } else {
            (None, Some(Request::Run))
        },
        None => (None, Some(Request::Run)),
    }
}

/// A permanent delete never runs unasked while deletes are to be
/// confirmed.
pub proof fn law_a_permanent_delete_is_confirmed_first(n: NextOp)
    requires
        n.permanent_delete,
    ensures
        run_of(true, Some(n)).1 is None,
        run_of(true, Some(n)).0 == Some(Opens::DeletePermanently(n.id, n.sources)),
{
}


/// What a line of the file actions menu does.
#[derive(Debug, Clone, PartialEq, Eq)]
pub enum ContextStep {
    /// Asks the core.
    Ask(Request),
    /// Opens the entry under the cursor, as `enter` does.
    ActivateEntry,
    /// Focuses the preview and asks the core to preview the path.
    Preview(String),
    /// Opens the rename box on the path.
    Rename(String),
    /// Opens the destination box for an operation.
    Destination(crate::overlays::context::Request),
    /// Opens the box that names a new file or directory in `dir`.
    Create { directory: bool, dir: String },
}

/// The archive a compression makes by default: beside the clicked path,
/// named after it when it is the only source, else `Archive`, with `.zip`.
pub open spec fn archive_name_of(t: crate::overlays::context::Target) -> Seq<char> {
    let name = if t.sources@.len() == 1 {
        match crate::overlays::rename::file_name_of(t.clicked@) {
            Some(n) => n,
            None => Seq::empty(),
        }
    } else {
        "Archive"@
    };
    crate::overlays::rename::pushed(crate::overlays::rename::parent_of(t.clicked@), name + ".zip"@)
}

/// Whether `r` is what menu line `a` does for target `t`, the cursor being
/// on the clicked path or not: a directory opens in the stack; the file
/// under the cursor opens as `enter` opens it, any other file in its
/// program; copy, move, compress and extract ask for a destination,
/// compress suggesting an archive beside the clicked path and extract of
/// one archive its path without the suffix.
pub open spec fn context_done(r: ContextStep, t: crate::overlays::context::Target, a: crate::overlays::context::Action,
    cursor_on_clicked: bool) -> bool {
    match a {
        MenuAction::Open => if t.directory {
            r == ContextStep::Ask(Request::Push(t.clicked))
        } else if cursor_on_clicked {
            r == ContextStep::ActivateEntry
        } else {
            r == ContextStep::Ask(Request::OpenExternal(t.clicked))
        },
        MenuAction::Preview => r == ContextStep::Preview(t.clicked),
        MenuAction::Mark => r == ContextStep::Ask(Request::ToggleMarkPath(t.clicked)),
        MenuAction::Rename => r == ContextStep::Rename(t.clicked),
        MenuAction::Delete => r == ContextStep::Ask(Request::QueueDeleteSources(t.sources)),
        MenuAction::CreateFile => r == ContextStep::Create { directory: false, dir: t.create_dir },
        MenuAction::CreateDirectory => r == ContextStep::Create { directory: true, dir: t.create_dir },
        MenuAction::Copy => r == ContextStep::Destination(crate::overlays::context::Request {
            kind: crate::ops::OpKind::Copy, sources: t.sources, destination: t.destination }),
        MenuAction::Move => r == ContextStep::Destination(crate::overlays::context::Request {
            kind: crate::ops::OpKind::Move, sources: t.sources, destination: t.destination }),
        MenuAction::Compress => r matches ContextStep::Destination(q) && q.kind == crate::ops::OpKind::Compress(crate::ops::Format::Zip)
            && q.sources == t.sources && q.destination@ == archive_name_of(t),
        MenuAction::Extract => r matches ContextStep::Destination(q) && q.kind == crate::ops::OpKind::Extract
            && q.sources == t.sources && (if t.sources@.len() == 1 {
            q.destination@ == crate::ops::archive_base(t.clicked@)
        } else {
            q.destination == t.destination
        }),
    }
}

/// What menu line `a` does for target `t`.
pub fn context_action(t: crate::overlays::context::Target, a: crate::overlays::context::Action, cursor_on_clicked: bool)
    -> (r: ContextStep)
    ensures
        context_done(r, t, a, cursor_on_clicked),
{
    match a {
        MenuAction::Open => if t.directory {
            ContextStep::Ask(Request::Push(t.clicked))
        } else if cursor_on_clicked {
            ContextStep::ActivateEntry
        } else {
            ContextStep::Ask(Request::OpenExternal(t.clicked))
        },
        MenuAction::Preview => ContextStep::Preview(t.clicked),
        MenuAction::Mark => ContextStep::Ask(Request::ToggleMarkPath(t.clicked)),
        MenuAction::Rename => ContextStep::Rename(t.clicked),
        MenuAction::Delete => ContextStep::Ask(Request::QueueDeleteSources(t.sources)),
        MenuAction::CreateFile => ContextStep::Create { directory: false, dir: t.create_dir },
        MenuAction::CreateDirectory => ContextStep::Create { directory: true, dir: t.create_dir },
        MenuAction::Copy => ContextStep::Destination(MenuRequest { kind: crate::ops::OpKind::Copy, sources: t.sources, destination: t.destination }),
        MenuAction::Move => ContextStep::Destination(MenuRequest { kind: crate::ops::OpKind::Move, sources: t.sources, destination: t.destination }),
        MenuAction::Compress => {
            let clicked = crate::text::chars_of(t.clicked.as_str());
            let mut name: Vec<char> = if t.sources.len() == 1 {
                match crate::overlays::rename::file_name(clicked.as_slice()) {
                    Some(n) => n,
                    None => Vec::new(),
                }
            } else {
                crate::text::chars_of("Archive")
            };
            crate::text::push_str(&mut name, ".zip");
            let dir = crate::overlays::rename::parent(clicked.as_slice());
            let dest = crate::overlays::rename::push_under(dir.as_slice(), name.as_slice());
            ContextStep::Destination(MenuRequest {
                kind: crate::ops::OpKind::Compress(crate::ops::Format::Zip),
                sources: t.sources,
                destination: crate::text::string_of(dest.as_slice()),
            })
        },
        MenuAction::Extract => if t.sources.len() == 1 {
            let clicked = crate::text::chars_of(t.clicked.as_str());
            let dest = crate::ops::archive_destination(clicked.as_slice());
            ContextStep::Destination(MenuRequest {
                kind: crate::ops::OpKind::Extract,
                sources: t.sources,
                destination: crate::text::string_of(dest.as_slice()),
            })
        } else {
            ContextStep::Destination(MenuRequest { kind: crate::ops::OpKind::Extract, sources: t.sources, destination: t.destination })
        },
    }
}


/// Each queueing key asks for its own kind of operation: `c` a copy here,
/// `m` a move here, `d` a delete; none of them opens anything or changes
/// the interface's state.
pub proof fn law_each_queueing_action_asks_its_own_kind(s: AppState, v: ActView)
    ensures
        act_of(s, v, Action::QueueCopy).request == Some(Request::QueueCopyHere),
        act_of(s, v, Action::QueueMove).request == Some(Request::QueueMoveHere),
        act_of(s, v, Action::QueueDelete).request == Some(Request::QueueDelete),
        act_of(s, v, Action::QueueCopy).state == s && act_of(s, v, Action::QueueCopy).opens is None,
        act_of(s, v, Action::QueueMove).state == s && act_of(s, v, Action::QueueMove).opens is None,
        act_of(s, v, Action::QueueDelete).state == s && act_of(s, v, Action::QueueDelete).opens is None,
{
}


/// The actions that only ask the core ask for what they name, and leave
/// the interface as it was.
pub proof fn law_each_core_action_asks_what_it_names(s: AppState, v: ActView)
    ensures
        act_of(s, v, Action::Mark).request == Some(Request::ToggleMark),
        act_of(s, v, Action::MarkAll).request == Some(Request::MarkAll),
        act_of(s, v, Action::InvertMarks).request == Some(Request::InvertMarks),
        act_of(s, v, Action::ClearMarks).request == Some(Request::ClearMarks),
        act_of(s, v, Action::Reload).request == Some(Request::Reload),
        act_of(s, v, Action::Pop).request == Some(Request::Back),
        act_of(s, v, Action::GoHome).request == Some(Request::Push(v.home)),
        act_of(s, v, Action::GoRoot).request == Some(Request::PushRoot),
        act_of(s, v, Action::ToggleHidden).request == Some(Request::SetHidden(!v.show_hidden)),
        act_of(s, v, Action::NextSortKey).request == Some(Request::NextSortKey),
        act_of(s, v, Action::ReverseSort).request == Some(Request::ReverseSort),
        v.op_at_cursor matches Some(id) ==> act_of(s, v, Action::DropOp).request == Some(Request::RemoveOp(id)),
        v.running matches Some((id, _)) ==> act_of(s, v, Action::CancelRun).request == Some(Request::Cancel(id)),
        act_of(s, v, Action::Mark).state == s,
        act_of(s, v, Action::Reload).state == s,
        act_of(s, v, Action::Pop).state == s,
{
}

} // verus!
