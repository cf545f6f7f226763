//! Where a key press goes. A key is offered to five layers in turn: the
//! Places picker or an open overlay takes every key while it is up; the `/`
//! filter's text entry takes typing next; a `g` waiting for its second key
//! comes next; then the embedded player while it has the preview; and last
//! the focused module's own bindings, then the global table.
use vstd::prelude::*;
use crate::keymap::{eaten, filter_eats, first_action, g_chord, g_prefix, module, resolve, binding_table, Action};
use crate::keys::{Key, KeyCode};
use crate::geometry::{inside, Rect};
use crate::layout::{hit_of, Regions};
use crate::panels::{module_of, ModuleId, Word};

verus! {

/// What the interface holds open when a key arrives.
#[derive(Debug, Clone, Copy, PartialEq, Eq, Structural)]
pub struct KeyContext {
    pub places_open: bool,
    pub overlay_open: bool,
    /// The `/` filter's text entry has focus.
    pub filter_open: bool,
    /// A `g` came before this key.
    pub g_pending: bool,
    /// The embedded player is up in the focused preview and has not yet
    /// declined this key.
    pub audio_first: bool,
    pub focus: ModuleId,
}

/// Where a key press goes.
#[derive(Debug, Clone, Copy, PartialEq, Eq, Structural)]
pub enum KeyRoute {
    /// `ctrl+c` while Places is open: close it and quit.
    QuitFromPlaces,
    /// To the Places picker.
    Places,
    /// To the open overlay.
    Overlay,
    /// The menu key, or `shift+F10`: the file actions menu.
    FileMenu,
    /// Typed into the filter.
    FilterTyping,
    /// `enter` in the filter: the filter stays, its entry closes.
    FilterKept,
    /// `esc` in the filter: the filter is dropped.
    FilterCleared,
    /// The second key of a chord, and the chord's action.
    Chord(Action),
    /// The key after a `g` that makes no chord: nothing happens.
    ChordMissed,
    /// Offered to the embedded player first.
    Audio,
    /// A bare `g`: the first half of a chord.
    AwaitChord,
    /// An action from the key table.
    Act(Action),
    /// Nothing wants it.
    Ignored,
}

/// The action the focused module, then the global table, give `k`.
pub open spec fn table_action(focus: ModuleId, k: Key) -> Option<Action> {
    match first_action(binding_table(), Some(module_of(focus)), k) {
        Some(a) => Some(a),
        None => first_action(binding_table(), None, k),
    }
}

/// Where `k` goes in context `c`: the layers tried in order.
pub open spec fn route_of(c: KeyContext, k: Key) -> KeyRoute {
    if c.places_open {
        if k.code == KeyCode::Char('c') && k.mods.ctrl { KeyRoute::QuitFromPlaces } else { KeyRoute::Places }
    } else if c.overlay_open {
        KeyRoute::Overlay
    } else if k.code == KeyCode::Menu || (k.code == KeyCode::F(10) && k.mods.shift) {
        KeyRoute::FileMenu
    } else if c.filter_open && eaten(k) {
        KeyRoute::FilterTyping
    } else if c.filter_open && k.code == KeyCode::Enter {
        KeyRoute::FilterKept
    } else if c.filter_open && k.code == KeyCode::Esc {
        KeyRoute::FilterCleared
    } else if c.g_pending {
        match g_chord(k) {
            Some(a) => KeyRoute::Chord(a),
            None => KeyRoute::ChordMissed,
        }
    } else if c.audio_first {
        KeyRoute::Audio
    } else if k.mods.is_empty() && k.code == KeyCode::Char('g') {
        KeyRoute::AwaitChord
    } else {
        match table_action(c.focus, k) {
            Some(a) => KeyRoute::Act(a),
            None => KeyRoute::Ignored,
        }
    }
}

/// Where `k` goes in context `c`.
pub fn route_key(c: KeyContext, k: Key) -> (r: KeyRoute)
    ensures
        r == route_of(c, k),
{
    if c.places_open {
        return if k.code == KeyCode::Char('c') && k.mods.ctrl { KeyRoute::QuitFromPlaces } else { KeyRoute::Places };
    }
    if c.overlay_open {
        return KeyRoute::Overlay;
    }
    let menu = match k.code {
        KeyCode::Menu => true,
        KeyCode::F(n) => n == 10 && k.mods.shift,
        _ => false,
    };
    if menu {
        return KeyRoute::FileMenu;
    }
    if c.filter_open {
        if filter_eats(k) {
            return KeyRoute::FilterTyping;
        }
        match k.code {
            KeyCode::Enter => return KeyRoute::FilterKept,
            KeyCode::Esc => return KeyRoute::FilterCleared,
            _ => {},
        }
    }
    if c.g_pending {
        return match g_prefix(k) {
            Some(a) => KeyRoute::Chord(a),
            None => KeyRoute::ChordMissed,
        };
    }
    if c.audio_first {
        return KeyRoute::Audio;
    }
    if !k.mods.ctrl && !k.mods.alt && !k.mods.shift && k.code == KeyCode::Char('g') {
        return KeyRoute::AwaitChord;
    }
    let found = match module(c.focus.module(), k) {
        Some(a) => Some(a),
        None => resolve(k),
    };
    match found {
        Some(a) => KeyRoute::Act(a),
        None => KeyRoute::Ignored,
    }
}

/// The layers hold: Places, then an overlay, take every key while up; while
/// the filter has focus every `alt+` key and `?` fall through it, and `esc`
/// and `enter` are always a way out of it rather than typing; a pending `g`
/// consumes exactly the next key; and a key reaches the key table only when
/// nothing above wanted it.
pub proof fn law_the_layers_are_tried_in_order(c: KeyContext, k: Key)
    ensures
        c.places_open ==> (route_of(c, k) == KeyRoute::Places || route_of(c, k) == KeyRoute::QuitFromPlaces),
        !c.places_open && c.overlay_open ==> route_of(c, k) == KeyRoute::Overlay,
        (k.mods.alt || k.code == KeyCode::Char('?')) ==> route_of(c, k) != KeyRoute::FilterTyping,
        (!c.places_open && !c.overlay_open && c.filter_open && k.code == KeyCode::Esc) ==> route_of(c, k)
            == KeyRoute::FilterCleared,
        (!c.places_open && !c.overlay_open && c.filter_open && k.code == KeyCode::Enter) ==> route_of(c, k)
            == KeyRoute::FilterKept,
        (!c.places_open && !c.overlay_open && !c.filter_open && c.g_pending && k.code != KeyCode::Menu
            && !(k.code == KeyCode::F(10) && k.mods.shift)) ==> (route_of(c, k) matches KeyRoute::Chord(_)
            || route_of(c, k) == KeyRoute::ChordMissed),
        route_of(c, k) matches KeyRoute::Act(a) ==> !c.places_open && !c.overlay_open && !c.g_pending
            && !c.audio_first && (c.filter_open ==> !eaten(k)) && table_action(c.focus, k) == Some(a),
{
}


/// A mouse button.
#[derive(Debug, Clone, Copy, PartialEq, Eq, Structural)]
pub enum MouseButton {
    Left,
    Right,
    Middle,
}

/// What the mouse did.
#[derive(Debug, Clone, Copy, PartialEq, Eq, Structural)]
pub enum MouseKind {
    Down(MouseButton),
    Up(MouseButton),
    Drag(MouseButton),
    Moved,
    ScrollDown,
    ScrollUp,
}

/// A mouse event at a cell.
#[derive(Debug, Clone, Copy, PartialEq, Eq, Structural)]
pub struct MouseInput {
    pub kind: MouseKind,
    pub column: u16,
    pub row: u16,
}

/// What the interface holds when a mouse event arrives, with the answers
/// the drawing layer alone can give about the cell under the pointer.
#[derive(Debug, Clone, Copy)]
pub struct MouseContext {
    pub places_open: bool,
    /// A scroll bar answered this press or drag; read only where
    /// [`bars_asked`] says the bars are asked.
    pub bar_took_it: bool,
    pub overlay_open: bool,
    /// Where the embedded player draws, while one is up in the preview.
    pub player_body: Option<Rect>,
    /// The player offers styles, so it takes a right press.
    pub player_styles: bool,
    /// Two listings side by side in place of the stack.
    pub commander: bool,
    pub regions: Regions,
    /// The header word under the pointer, in the pane under it.
    pub pane_word: Option<Word>,
    /// The listing row under the pointer, in the pane under it.
    pub pane_row: Option<usize>,
}

/// The embedded player's name for a pointer event.
#[derive(Debug, Clone, Copy, PartialEq, Eq, Structural)]
pub enum PlayerButton {
    Left,
    Right,
    Drag,
    ScrollUp,
    ScrollDown,
}

/// Where a mouse event goes.
#[derive(Debug, Clone, Copy, PartialEq, Eq, Structural)]
pub enum MouseRoute {
    /// A left press for the Places picker.
    PlacesClick,
    /// The wheel in the Places picker.
    PlacesScroll { down: bool },
    /// Anything else while Places is up: taken, and nothing happens.
    PlacesIgnored,
    /// A scroll bar took the press or drag.
    Bar,
    /// The left button came up: the bars let go, and nothing else happens.
    ReleaseBars,
    /// The wheel over an open overlay.
    OverlayScroll { up: bool },
    /// A left press while an overlay is open.
    OverlayClick,
    /// Anything else while an overlay is open: taken, and nothing happens.
    OverlayIgnored,
    /// To the embedded player, at a cell of its body; the preview takes focus.
    Player { button: PlayerButton, x: u16, y: u16 },
    /// Inside the player's body but nothing it answers.
    PlayerIgnored,
    /// A left press on a pane's header word.
    PaneWord { pane: usize, word: Word },
    /// A press on a pane's row: the cursor goes there; a right press opens
    /// the file menu; a left press may open the row if it is a double click.
    PaneRow { pane: usize, row: usize, menu: bool, may_open: bool },
    /// A press elsewhere in a pane: the pane takes focus.
    PaneFocus { pane: usize },
    /// The wheel over a pane: it takes focus and the cursor moves.
    PaneScroll { pane: usize, rows: i32 },
    /// Anything else over a pane.
    PaneIgnored,
    /// A left press for the modules.
    Click,
    /// A right press for the modules.
    RightClick,
    /// The wheel over the modules, by rows.
    Scroll { rows: i32 },
    /// Nothing wants it.
    Ignored,
}

/// The scroll bars are asked about a left press or a left drag, unless the
/// Places picker is up.
pub open spec fn bars_asked_of(places_open: bool, kind: MouseKind) -> bool {
    !places_open && (kind == MouseKind::Down(MouseButton::Left) || kind == MouseKind::Drag(MouseButton::Left))
}

/// Whether the scroll bars are asked about this event.
pub fn bars_asked(places_open: bool, kind: MouseKind) -> (b: bool)
    ensures
        b == bars_asked_of(places_open, kind),
{
    !places_open && match kind {
        MouseKind::Down(MouseButton::Left) => true,
        MouseKind::Drag(MouseButton::Left) => true,
        _ => false,
    }
}

/// Which of the two side-by-side panes holds column `x` of `area`: the
/// right one from the middle on.
pub open spec fn pane_at_of(area: Rect, x: int) -> usize {
    if x >= area.x + area.width / 2 { 1 } else { 0 }
}

/// Which pane holds column `x`.
pub fn pane_at(area: Rect, x: u16) -> (p: usize)
    ensures
        p == pane_at_of(area, x as int),
{
    if (x as u32) >= (area.x as u32) + (area.width as u32) / 2 { 1 } else { 0 }
}

/// What the player calls an event, if it answers it.
pub open spec fn player_button_of(kind: MouseKind, styles: bool) -> Option<PlayerButton> {
    match kind {
        MouseKind::Down(MouseButton::Left) => Some(PlayerButton::Left),
        MouseKind::Down(MouseButton::Right) => if styles { Some(PlayerButton::Right) } else { None },
        MouseKind::Drag(MouseButton::Left) => Some(PlayerButton::Drag),
        MouseKind::ScrollUp => Some(PlayerButton::ScrollUp),
        MouseKind::ScrollDown => Some(PlayerButton::ScrollDown),
        _ => None,
    }
}

/// Where the player's layer sends an event inside its body.
pub open spec fn player_route_of(body: Rect, styles: bool, e: MouseInput) -> MouseRoute {
    match player_button_of(e.kind, styles) {
        Some(b) => MouseRoute::Player { button: b, x: (e.column - body.x) as u16, y: (e.row - body.y) as u16 },
        None => MouseRoute::PlayerIgnored,
    }
}

/// Where a pane's layer sends an event.
pub open spec fn pane_route_of(c: MouseContext, e: MouseInput) -> MouseRoute {
    let pane = pane_at_of(c.regions.modules@[0], e.column as int);
    match e.kind {
        MouseKind::Down(button) => {
            if button == MouseButton::Left && c.pane_word is Some {
                MouseRoute::PaneWord { pane, word: c.pane_word->0 }
            } else {
                match c.pane_row {
                    Some(row) => MouseRoute::PaneRow {
                        pane,
                        row,
                        menu: button == MouseButton::Right,
                        may_open: button == MouseButton::Left,
                    },
                    None => MouseRoute::PaneFocus { pane },
                }
            }
        },
        MouseKind::ScrollDown => MouseRoute::PaneScroll { pane, rows: 3i32 },
        MouseKind::ScrollUp => MouseRoute::PaneScroll { pane, rows: -3i32 },
        _ => MouseRoute::PaneIgnored,
    }
}

/// Where a mouse event goes: the layers tried in order, Places, the scroll
/// bars, an open overlay, the embedded player, the Commander panes, then
/// the modules; the wheel moves three rows.
pub open spec fn mouse_route_of(c: MouseContext, e: MouseInput) -> MouseRoute {
    let over = hit_of(c.regions, e.column as int, e.row as int);
    if c.places_open {
        match e.kind {
            MouseKind::Down(MouseButton::Left) => MouseRoute::PlacesClick,
            MouseKind::ScrollDown => MouseRoute::PlacesScroll { down: true },
            MouseKind::ScrollUp => MouseRoute::PlacesScroll { down: false },
            _ => MouseRoute::PlacesIgnored,
        }
    } else if bars_asked_of(c.places_open, e.kind) && c.bar_took_it {
        MouseRoute::Bar
    } else if e.kind == MouseKind::Up(MouseButton::Left) {
        MouseRoute::ReleaseBars
    } else if c.overlay_open {
        match e.kind {
            MouseKind::ScrollDown => MouseRoute::OverlayScroll { up: false },
            MouseKind::ScrollUp => MouseRoute::OverlayScroll { up: true },
            MouseKind::Down(MouseButton::Left) => MouseRoute::OverlayClick,
            _ => MouseRoute::OverlayIgnored,
        }
    } else if c.player_body is Some && over == Some(ModuleId::Preview)
        && c.player_body->0.holds(e.column as int, e.row as int) {
        player_route_of(c.player_body->0, c.player_styles, e)
    } else if c.commander && over == Some(ModuleId::Stack) {
        pane_route_of(c, e)
    } else {
        match e.kind {
            MouseKind::Down(MouseButton::Left) => MouseRoute::Click,
            MouseKind::Down(MouseButton::Right) => MouseRoute::RightClick,
            MouseKind::ScrollDown => MouseRoute::Scroll { rows: 3i32 },
            MouseKind::ScrollUp => MouseRoute::Scroll { rows: -3i32 },
            _ => MouseRoute::Ignored,
        }
    }
}

/// Which module holds the cell, trying them top to bottom.
fn module_at(r: &Regions, x: u16, y: u16) -> (m: Option<ModuleId>)
    ensures
        m == hit_of(*r, x as int, y as int),
{
    if inside(r.modules[0], x, y) {
        Some(ModuleId::Stack)
    } else if inside(r.modules[1], x, y) {
        Some(ModuleId::Preview)
    } else if inside(r.modules[2], x, y) {
        Some(ModuleId::Operations)
    } else {
        None
    }
}

/// Where a mouse event goes in context `c`.
pub fn route_mouse(c: MouseContext, e: MouseInput) -> (r: MouseRoute)
    ensures
        r == mouse_route_of(c, e),
{
    if c.places_open {
        return match e.kind {
            MouseKind::Down(MouseButton::Left) => MouseRoute::PlacesClick,
            MouseKind::ScrollDown => MouseRoute::PlacesScroll { down: true },
            MouseKind::ScrollUp => MouseRoute::PlacesScroll { down: false },
            _ => MouseRoute::PlacesIgnored,
        };
    }
    if bars_asked(c.places_open, e.kind) && c.bar_took_it {
        return MouseRoute::Bar;
    }
    if let MouseKind::Up(MouseButton::Left) = e.kind {
        return MouseRoute::ReleaseBars;
    }
    if c.overlay_open {
        return match e.kind {
            MouseKind::ScrollDown => MouseRoute::OverlayScroll { up: false },
            MouseKind::ScrollUp => MouseRoute::OverlayScroll { up: true },
            MouseKind::Down(MouseButton::Left) => MouseRoute::OverlayClick,
            _ => MouseRoute::OverlayIgnored,
        };
    }
    let over = module_at(&c.regions, e.column, e.row);
    let in_preview = match over {
        Some(ModuleId::Preview) => true,
        _ => false,
    };
    if let Some(body) = c.player_body {
        if in_preview && inside(body, e.column, e.row) {
            let button = match e.kind {
                MouseKind::Down(MouseButton::Left) => Some(PlayerButton::Left),
                MouseKind::Down(MouseButton::Right) => if c.player_styles { Some(PlayerButton::Right) } else { None },
                MouseKind::Drag(MouseButton::Left) => Some(PlayerButton::Drag),
                MouseKind::ScrollUp => Some(PlayerButton::ScrollUp),
                MouseKind::ScrollDown => Some(PlayerButton::ScrollDown),
                _ => None,
            };
            return match button {
                Some(b) => MouseRoute::Player { button: b, x: e.column - body.x, y: e.row - body.y },
                None => MouseRoute::PlayerIgnored,
            };
        }
    }
    let in_stack = match over {
        Some(ModuleId::Stack) => true,
        _ => false,
    };
    if c.commander && in_stack {
        let pane = pane_at(c.regions.modules[0], e.column);
        return match e.kind {
            MouseKind::Down(button) => {
                let left = match button {
                    MouseButton::Left => true,
                    _ => false,
                };
                let right = match button {
                    MouseButton::Right => true,
                    _ => false,
                };
                match (left, c.pane_word) {
                    (true, Some(word)) => MouseRoute::PaneWord { pane, word },
                    _ => match c.pane_row {
                        Some(row) => MouseRoute::PaneRow { pane, row, menu: right, may_open: left },
                        None => MouseRoute::PaneFocus { pane },
                    },
                }
            },
            MouseKind::ScrollDown => MouseRoute::PaneScroll { pane, rows: 3i32 },
            MouseKind::ScrollUp => MouseRoute::PaneScroll { pane, rows: -3i32 },
            _ => MouseRoute::PaneIgnored,
        };
    }
    match e.kind {
        MouseKind::Down(MouseButton::Left) => MouseRoute::Click,
        MouseKind::Down(MouseButton::Right) => MouseRoute::RightClick,
        MouseKind::ScrollDown => MouseRoute::Scroll { rows: 3i32 },
        MouseKind::ScrollUp => MouseRoute::Scroll { rows: -3i32 },
        _ => MouseRoute::Ignored,
    }
}

/// The mouse's layers hold: while Places is up it takes every event; a bar
/// that takes a press or drag keeps it from everything below; while an
/// overlay is open nothing reaches the player, the panes or the modules;
/// the player is reached only inside its own body in the preview; the
/// panes only in Commander over the stack; and the wheel moves three rows.
pub proof fn law_the_mouse_layers_are_tried_in_order(c: MouseContext, e: MouseInput)
    ensures
        c.places_open ==> (mouse_route_of(c, e) matches MouseRoute::PlacesClick
            || mouse_route_of(c, e) matches MouseRoute::PlacesScroll { .. }
            || mouse_route_of(c, e) matches MouseRoute::PlacesIgnored),
        !c.places_open && bars_asked_of(false, e.kind) && c.bar_took_it ==> mouse_route_of(c, e) == MouseRoute::Bar,
        !c.places_open && c.overlay_open ==> (mouse_route_of(c, e) matches MouseRoute::OverlayScroll { .. }
            || mouse_route_of(c, e) matches MouseRoute::OverlayClick
            || mouse_route_of(c, e) matches MouseRoute::OverlayIgnored
            || mouse_route_of(c, e) matches MouseRoute::Bar
            || mouse_route_of(c, e) matches MouseRoute::ReleaseBars),
        (mouse_route_of(c, e) matches MouseRoute::Player { .. } || mouse_route_of(c, e) matches MouseRoute::PlayerIgnored)
            ==> !c.places_open && !c.overlay_open && c.player_body is Some
            && c.player_body->0.holds(e.column as int, e.row as int)
            && hit_of(c.regions, e.column as int, e.row as int) == Some(ModuleId::Preview),
        (mouse_route_of(c, e) matches MouseRoute::PaneScroll { .. } || mouse_route_of(c, e) matches MouseRoute::PaneRow { .. }
            || mouse_route_of(c, e) matches MouseRoute::PaneWord { .. } || mouse_route_of(c, e) matches MouseRoute::PaneFocus { .. })
            ==> !c.places_open && !c.overlay_open && c.commander
            && hit_of(c.regions, e.column as int, e.row as int) == Some(ModuleId::Stack),
        mouse_route_of(c, e) matches MouseRoute::PaneScroll { rows, .. } ==> (rows == 3 || rows == -3),
        mouse_route_of(c, e) matches MouseRoute::Scroll { rows } ==> (rows == 3 && e.kind == MouseKind::ScrollDown
            || rows == -3 && e.kind == MouseKind::ScrollUp),
{
}

} // verus!
