use starfold_ui::dispatch::{bars_asked, pane_at, route_key, route_mouse, KeyContext, KeyRoute, MouseButton, MouseContext, MouseInput, MouseKind, MouseRoute, PlayerButton};
use starfold_ui::geometry::Rect;
use starfold_ui::layout::Regions;
use starfold_ui::panels::Word;
use starfold_ui::keymap::Action;
use starfold_ui::keys::{Key, KeyCode, Mods};
use starfold_ui::panels::ModuleId;

fn idle(focus: ModuleId) -> KeyContext {
    KeyContext {
        places_open: false,
        overlay_open: false,
        filter_open: false,
        g_pending: false,
        audio_first: false,
        focus,
    }
}

fn plain(c: char) -> Key {
    Key::plain(KeyCode::Char(c))
}

#[test]
fn places_and_overlays_take_every_key() {
    let mut c = idle(ModuleId::Stack);
    c.places_open = true;
    assert_eq!(route_key(c, plain('q')), KeyRoute::Places);
    assert_eq!(route_key(c, Key::new(KeyCode::Char('c'), Mods::ctrl())), KeyRoute::QuitFromPlaces);
    let mut c = idle(ModuleId::Stack);
    c.overlay_open = true;
    assert_eq!(route_key(c, plain('q')), KeyRoute::Overlay);
    assert_eq!(route_key(c, Key::plain(KeyCode::Menu)), KeyRoute::Overlay);
}

#[test]
fn the_menu_key_and_shift_f10_open_the_file_menu() {
    let c = idle(ModuleId::Stack);
    assert_eq!(route_key(c, Key::plain(KeyCode::Menu)), KeyRoute::FileMenu);
    assert_eq!(route_key(c, Key::new(KeyCode::F(10), Mods::shift())), KeyRoute::FileMenu);
    assert_ne!(route_key(c, Key::plain(KeyCode::F(10))), KeyRoute::FileMenu);
}

#[test]
fn the_filter_takes_typing_and_lets_the_rest_through() {
    let mut c = idle(ModuleId::Stack);
    c.filter_open = true;
    assert_eq!(route_key(c, plain('q')), KeyRoute::FilterTyping);
    assert_eq!(route_key(c, Key::plain(KeyCode::Enter)), KeyRoute::FilterKept);
    assert_eq!(route_key(c, Key::plain(KeyCode::Esc)), KeyRoute::FilterCleared);
    assert_eq!(route_key(c, plain('?')), KeyRoute::Act(Action::Help));
    assert_eq!(route_key(c, Key::plain(KeyCode::Down)), KeyRoute::Act(Action::CursorDown));
}

#[test]
fn a_g_waits_for_its_second_key() {
    let c = idle(ModuleId::Stack);
    assert_eq!(route_key(c, plain('g')), KeyRoute::AwaitChord);
    let mut pending = c;
    pending.g_pending = true;
    assert_eq!(route_key(pending, plain('g')), KeyRoute::Chord(Action::Home));
    assert_eq!(route_key(pending, plain('h')), KeyRoute::Chord(Action::GoHome));
    assert_eq!(route_key(pending, plain('x')), KeyRoute::ChordMissed);
    assert_eq!(route_key(pending, plain('q')), KeyRoute::ChordMissed, "the pending g eats the next key");
}

#[test]
fn the_player_is_offered_keys_before_the_table() {
    let mut c = idle(ModuleId::Preview);
    c.audio_first = true;
    assert_eq!(route_key(c, Key::plain(KeyCode::Char(' '))), KeyRoute::Audio);
    c.audio_first = false;
    assert_eq!(route_key(c, plain('c')), KeyRoute::Act(Action::TogglePreview));
}

#[test]
fn the_focused_module_is_asked_before_the_global_table() {
    assert_eq!(route_key(idle(ModuleId::Stack), plain('h')), KeyRoute::Act(Action::Pop));
    assert_eq!(route_key(idle(ModuleId::Operations), plain('r')), KeyRoute::Act(Action::RunOp));
    assert_eq!(route_key(idle(ModuleId::Operations), plain('q')), KeyRoute::Act(Action::Quit));
    assert_eq!(route_key(idle(ModuleId::Preview), plain('r')), KeyRoute::Ignored);
}

fn regions() -> Regions {
    Regions {
        area: Rect::new(0, 0, 80, 24),
        modules: [Rect::new(0, 0, 80, 12), Rect::new(0, 12, 80, 8), Rect::new(0, 20, 80, 3)],
        status: Rect::new(0, 23, 80, 1),
    }
}

fn calm() -> MouseContext {
    MouseContext {
        places_open: false,
        bar_took_it: false,
        overlay_open: false,
        player_body: None,
        player_styles: false,
        commander: false,
        regions: regions(),
        pane_word: None,
        pane_row: None,
    }
}

fn at(kind: MouseKind, column: u16, row: u16) -> MouseInput {
    MouseInput { kind, column, row }
}

const LEFT: MouseKind = MouseKind::Down(MouseButton::Left);

#[test]
fn places_takes_every_mouse_event_while_it_is_up() {
    let c = MouseContext { places_open: true, bar_took_it: true, overlay_open: true, ..calm() };
    assert_eq!(route_mouse(c, at(LEFT, 5, 5)), MouseRoute::PlacesClick);
    assert_eq!(route_mouse(c, at(MouseKind::ScrollDown, 5, 5)), MouseRoute::PlacesScroll { down: true });
    assert_eq!(route_mouse(c, at(MouseKind::ScrollUp, 5, 5)), MouseRoute::PlacesScroll { down: false });
    assert_eq!(route_mouse(c, at(MouseKind::Up(MouseButton::Left), 5, 5)), MouseRoute::PlacesIgnored);
    assert!(!bars_asked(true, LEFT));
}

#[test]
fn a_bar_keeps_its_press_and_drag_from_everything_below() {
    let c = MouseContext { bar_took_it: true, overlay_open: true, ..calm() };
    assert_eq!(route_mouse(c, at(LEFT, 79, 3)), MouseRoute::Bar);
    assert_eq!(route_mouse(c, at(MouseKind::Drag(MouseButton::Left), 79, 3)), MouseRoute::Bar);
    assert_eq!(route_mouse(c, at(MouseKind::ScrollDown, 79, 3)), MouseRoute::OverlayScroll { up: false });
    assert_eq!(route_mouse(calm(), at(MouseKind::Up(MouseButton::Left), 5, 5)), MouseRoute::ReleaseBars);
}

#[test]
fn an_open_overlay_takes_the_mouse() {
    let c = MouseContext { overlay_open: true, ..calm() };
    assert_eq!(route_mouse(c, at(LEFT, 5, 5)), MouseRoute::OverlayClick);
    assert_eq!(route_mouse(c, at(MouseKind::ScrollUp, 5, 5)), MouseRoute::OverlayScroll { up: true });
    assert_eq!(route_mouse(c, at(MouseKind::Down(MouseButton::Right), 5, 5)), MouseRoute::OverlayIgnored);
}

#[test]
fn the_player_answers_inside_its_body_only() {
    let c = MouseContext { player_body: Some(Rect::new(10, 13, 20, 5)), ..calm() };
    assert_eq!(
        route_mouse(c, at(LEFT, 12, 14)),
        MouseRoute::Player { button: PlayerButton::Left, x: 2, y: 1 }
    );
    assert_eq!(route_mouse(c, at(MouseKind::Down(MouseButton::Right), 12, 14)), MouseRoute::PlayerIgnored);
    let styled = MouseContext { player_styles: true, ..c };
    assert_eq!(
        route_mouse(styled, at(MouseKind::Down(MouseButton::Right), 12, 14)),
        MouseRoute::Player { button: PlayerButton::Right, x: 2, y: 1 }
    );
    assert_eq!(route_mouse(c, at(LEFT, 40, 14)), MouseRoute::Click);
}

#[test]
fn commander_panes_take_presses_and_the_wheel_over_the_stack() {
    assert_eq!(pane_at(Rect::new(0, 0, 80, 12), 39), 0);
    assert_eq!(pane_at(Rect::new(0, 0, 80, 12), 40), 1);
    let c = MouseContext { commander: true, pane_word: Some(Word::Sort), pane_row: Some(4), ..calm() };
    assert_eq!(route_mouse(c, at(LEFT, 50, 2)), MouseRoute::PaneWord { pane: 1, word: Word::Sort });
    assert_eq!(
        route_mouse(c, at(MouseKind::Down(MouseButton::Right), 50, 2)),
        MouseRoute::PaneRow { pane: 1, row: 4, menu: true, may_open: false }
    );
    let no_word = MouseContext { pane_word: None, ..c };
    assert_eq!(
        route_mouse(no_word, at(LEFT, 5, 2)),
        MouseRoute::PaneRow { pane: 0, row: 4, menu: false, may_open: true }
    );
    let empty = MouseContext { pane_row: None, ..no_word };
    assert_eq!(route_mouse(empty, at(LEFT, 5, 2)), MouseRoute::PaneFocus { pane: 0 });
    assert_eq!(route_mouse(c, at(MouseKind::ScrollUp, 5, 2)), MouseRoute::PaneScroll { pane: 0, rows: -3 });
    assert_eq!(route_mouse(c, at(LEFT, 5, 14)), MouseRoute::Click);
}

#[test]
fn the_modules_get_presses_and_the_wheel_moves_three_rows() {
    assert_eq!(route_mouse(calm(), at(LEFT, 5, 5)), MouseRoute::Click);
    assert_eq!(route_mouse(calm(), at(MouseKind::Down(MouseButton::Right), 5, 5)), MouseRoute::RightClick);
    assert_eq!(route_mouse(calm(), at(MouseKind::ScrollDown, 5, 5)), MouseRoute::Scroll { rows: 3 });
    assert_eq!(route_mouse(calm(), at(MouseKind::ScrollUp, 5, 5)), MouseRoute::Scroll { rows: -3 });
    assert_eq!(route_mouse(calm(), at(MouseKind::Moved, 5, 5)), MouseRoute::Ignored);
}
