use starfold_ui::geometry::Rect;
use starfold_ui::layout::{inset, LayoutState, COLLAPSED_ROWS, MIN_COLS, MIN_ROWS, STACK_MIN_ROWS};
use starfold_ui::panels::{column_ids, ModuleId};

fn state() -> LayoutState {
    LayoutState::new(10, 6, 6)
}

fn min_height(m: ModuleId) -> u16 {
    match m {
        ModuleId::Stack => STACK_MIN_ROWS,
        ModuleId::Preview | ModuleId::Operations => COLLAPSED_ROWS,
    }
}

#[test]
fn the_modules_tile_the_body_from_top_to_bottom() {
    for width in [59u16, 60, 61, 100, 200] {
        for height in [20u16, 21, 22, 30, 60] {
            for focus in column_ids() {
                for preview_open in [false, true] {
                    for queued in [0u16, 2, 9] {
                        let mut s = state();
                        s.focus = focus;
                        s.preview_open = preview_open;
                        let full = Rect::new(0, 0, width, height);
                        let Some(r) = s.regions(full, (0, 0), queued) else {
                            assert!(width < MIN_COLS || height < MIN_ROWS, "{width}x{height} refused to lay out");
                            continue;
                        };
                        let mut y = r.area.y;
                        for m in column_ids() {
                            let rect = r.rect_of(m);
                            assert_eq!(rect.x, r.area.x, "{m:?} at {width}x{height}");
                            assert_eq!(rect.width, r.area.width, "{m:?} at {width}x{height}");
                            assert_eq!(rect.y, y, "{m:?} at {width}x{height} is not stacked");
                            assert!(rect.height >= min_height(m), "{m:?} is {rect:?}, below its floor");
                            y += rect.height;
                        }
                        assert_eq!(y, r.status.y, "the stack does not reach the status line");
                        assert_eq!(r.status.height, 1);
                        assert_eq!(r.status.y, r.area.y + r.area.height - 1);
                    }
                }
            }
        }
    }
}

#[test]
fn a_terminal_below_the_floor_gets_nothing() {
    for (w, h) in [(59u16, 30u16), (60, 20), (40, 8), (0, 0)] {
        let mut s = state();
        let r = s.regions(Rect::new(0, 0, w, h), (0, 0), 3);
        assert!(r.is_none(), "{w}x{h} laid out");
        assert!(s.last.is_none());
        assert!(s.regions(Rect::new(0, 0, 100, 30), (0, 0), 3).is_some());
    }
}

#[test]
fn padding_is_taken_before_the_floor_is_measured() {
    let mut s = state();
    let r = s.regions(Rect::new(0, 0, MIN_COLS + 4, MIN_ROWS + 2), (2, 1), 3).expect("60x21 left");
    assert_eq!(r.area, Rect::new(2, 1, MIN_COLS, MIN_ROWS));
    let mut s = state();
    assert!(
        s.regions(Rect::new(0, 0, MIN_COLS + 3, MIN_ROWS + 2), (2, 1), 3).is_none(),
        "59 columns after padding is below the floor"
    );
}

#[test]
fn padding_larger_than_the_area_leaves_nothing() {
    assert_eq!(inset(Rect::new(5, 5, 4, 10), (2, 1)), Rect::new(5, 5, 0, 0));
    assert_eq!(inset(Rect::new(5, 5, 10, 10), (2, 1)), Rect::new(7, 6, 6, 8));
}

#[test]
fn the_stack_never_drops_below_its_minimum() {
    for height in MIN_ROWS..=60 {
        for focus in column_ids() {
            for queued in [0u16, 5, 200] {
                let mut s = state();
                s.focus = focus;
                let r = s.regions(Rect::new(0, 0, 100, height), (0, 0), queued).unwrap();
                assert!(
                    r.rect_of(ModuleId::Stack).height >= STACK_MIN_ROWS,
                    "{height} rows, focus {focus:?}, queued {queued}"
                );
            }
        }
    }
}

#[test]
fn at_the_floor_every_module_is_its_minimum() {
    assert_eq!(MIN_ROWS, 21);
    let mut s = state();
    let r = s.regions(Rect::new(0, 0, MIN_COLS, MIN_ROWS), (0, 0), 50).unwrap();
    assert_eq!(r.rect_of(ModuleId::Stack).height, STACK_MIN_ROWS);
    assert_eq!(r.rect_of(ModuleId::Preview).height, COLLAPSED_ROWS);
    assert_eq!(r.rect_of(ModuleId::Operations).height, COLLAPSED_ROWS);
    assert_eq!(COLLAPSED_ROWS, 4);
    assert_eq!(STACK_MIN_ROWS, 12);
}

#[test]
fn operations_grows_only_while_focused() {
    let mut s = state();
    s.focus = ModuleId::Stack;
    let r = s.regions(Rect::new(0, 0, 100, 40), (0, 0), 9).unwrap();
    assert_eq!(r.rect_of(ModuleId::Operations).height, COLLAPSED_ROWS, "unfocused with nine queued still folded");
    assert!(!s.is_open(ModuleId::Operations));

    s.focus_set(ModuleId::Operations);
    let r = s.regions(Rect::new(0, 0, 100, 40), (0, 0), 9).unwrap();
    assert_eq!(
        r.rect_of(ModuleId::Operations).height,
        COLLAPSED_ROWS + (9u16.min(s.ops_rows) - 1),
        "focused, it opens up to ops_rows"
    );
    assert!(s.is_open(ModuleId::Operations));

    let mut s = state();
    s.focus_set(ModuleId::Operations);
    let r = s.regions(Rect::new(0, 0, 100, 40), (0, 0), 1).unwrap();
    assert_eq!(r.rect_of(ModuleId::Operations).height, COLLAPSED_ROWS);
}

#[test]
fn the_preview_takes_half_the_body_when_focused() {
    let mut s = state();
    s.focus = ModuleId::Stack;
    let full = Rect::new(0, 0, 100, 60);
    let r = s.regions(full, (0, 0), 0).unwrap();
    assert_eq!(
        r.rect_of(ModuleId::Preview).height,
        COLLAPSED_ROWS + s.preview_rows,
        "unfocused and open, capped at preview_rows"
    );
    s.focus_set(ModuleId::Preview);
    let r = s.regions(full, (0, 0), 0).unwrap();
    let body_height = full.height - 1;
    assert_eq!(r.rect_of(ModuleId::Preview).height, body_height / 2, "focused, it takes half the body");
    assert!(r.rect_of(ModuleId::Preview).height > COLLAPSED_ROWS + s.preview_rows);
}

#[test]
fn focusing_preview_opens_it_and_toggling_it_lands_on_the_stack() {
    let mut s = state();
    s.preview_open = false;
    s.focus_set(ModuleId::Preview);
    assert!(s.preview_open);
    assert_eq!(s.focus(), ModuleId::Preview);
    s.toggle_preview();
    assert!(!s.preview_open);
    assert_eq!(s.focus(), ModuleId::Stack);
    s.focus_set(ModuleId::Operations);
    s.toggle_preview();
    assert!(s.preview_open);
    assert_eq!(s.focus(), ModuleId::Operations);
}

#[test]
fn focus_next_and_prev_cycle_the_column() {
    let mut s = state();
    assert_eq!(s.focus(), ModuleId::Stack);
    s.focus_next();
    assert_eq!(s.focus(), ModuleId::Preview);
    s.focus_next();
    assert_eq!(s.focus(), ModuleId::Operations);
    s.focus_next();
    assert_eq!(s.focus(), ModuleId::Stack);
    s.focus_prev();
    assert_eq!(s.focus(), ModuleId::Operations);
}

#[test]
fn hit_testing_answers_the_module_that_was_drawn() {
    let mut s = state();
    let r = s.regions(Rect::new(0, 0, 100, 30), (0, 0), 3).unwrap();
    for m in column_ids() {
        let rect = r.rect_of(m);
        assert_eq!(r.hit(rect.x, rect.y), Some(m));
        assert_eq!(r.hit(rect.x + rect.width - 1, rect.y + rect.height - 1), Some(m));
    }
    assert_eq!(r.hit(r.status.x, r.status.y), None, "the status is not a module");
}

#[test]
fn focus_and_toggle_sequences_hold_the_invariants() {
    let col = column_ids();
    let mut seed: u32 = 12345;
    for _ in 0..200 {
        let mut s = state();
        for _ in 0..40 {
            seed = seed.wrapping_mul(1103515245).wrapping_add(12345);
            match (seed >> 16) % 6 {
                0 | 1 | 2 => s.focus_set(col[((seed >> 16) % 3) as usize]),
                3 => s.focus_next(),
                4 => s.focus_prev(),
                _ => s.toggle_preview(),
            }
            assert!(col.contains(&s.focus()), "{:?} is not a module", s.focus());
            if s.focus() == ModuleId::Preview {
                assert!(s.preview_open, "a focused preview is folded");
            }
        }
    }
}

#[test]
fn a_terminal_below_the_floor_gets_the_size_message() {
    let (x, y, t) = starfold_ui::layout::size_message(Rect::new(0, 0, 40, 10)).unwrap();
    let text: String = t.into_iter().collect();
    assert_eq!(text, "STAR/FOLD needs at least 60\u{d7}21");
    assert_eq!((x, y), (5, 5));
    let (_, _, cut) = starfold_ui::layout::size_message(Rect::new(0, 0, 9, 3)).unwrap();
    assert_eq!(cut.into_iter().collect::<String>(), "STAR/FOLD");
    assert!(starfold_ui::layout::size_message(Rect::new(0, 0, 0, 3)).is_none());
}
