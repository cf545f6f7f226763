use starfold_ui::geometry::Rect;
use starfold_ui::keymap::Module;
use starfold_ui::panels::stack::{columns, hit, rule_line, split, visible_crumbs, Crumb, Hit};
use starfold_ui::panels::{column_ids, fit, words, ModuleId, Word};

#[test]
fn every_module_is_in_the_column_once() {
    let col = column_ids();
    for m in [ModuleId::Stack, ModuleId::Preview, ModuleId::Operations] {
        assert_eq!(
            col.iter().filter(|&&q| q == m).count(),
            1,
            "{m:?} is not in the column exactly once"
        );
        assert_eq!(col[m.index()], m, "{m:?} indexes somebody else's rect");
    }
}

#[test]
fn the_stack_never_folds_and_the_other_two_do() {
    assert!(!ModuleId::Stack.folds());
    assert!(ModuleId::Preview.folds());
    assert!(ModuleId::Operations.folds());
}

#[test]
fn every_module_maps_to_its_own_key_module() {
    let mut seen: Vec<Module> = Vec::new();
    for m in column_ids() {
        let k = m.module();
        assert!(!seen.contains(&k), "{k:?} is claimed by two modules");
        seen.push(k);
    }
}

#[test]
fn a_summary_row_is_one_fitted_line() {
    let text: Vec<char> = "a rather long summary".chars().collect();
    let drawn: String = fit(&text, 10).into_iter().collect();
    assert_eq!(drawn, "a rather l");
}

#[test]
fn no_module_offers_a_word_it_cannot_honour() {
    for m in column_ids() {
        for w in words(m) {
            let allowed = match m {
                ModuleId::Stack => {
                    matches!(
                        w,
                        Word::Back
                            | Word::Hidden
                            | Word::Sort
                            | Word::Filter
                            | Word::View
                            | Word::Places
                            | Word::Bookmark
                    )
                }
                ModuleId::Preview => matches!(w, Word::Close),
                ModuleId::Operations => matches!(w, Word::Run | Word::Clear),
            };
            assert!(allowed, "{m:?} offers {w:?}");
        }
    }
}

#[test]
fn module_titles_and_words_read_as_drawn() {
    assert_eq!(ModuleId::Stack.title(), "stack");
    assert_eq!(Word::Back.word(), "\u{2039}");
    assert_eq!(words(ModuleId::Operations), vec![Word::Run, Word::Clear]);
}

#[test]
fn split_gives_one_row_per_crumb_up_to_fold_rows() {
    let body = Rect::new(0, 0, 40, 30);
    let s = split(body, 3, 6);
    assert!(!s.squeezed);
    assert_eq!(s.crumbs.height, 3);
    assert_eq!(s.rule.height, 1);
    assert_eq!(s.list.height, 26);

    let capped = split(body, 9, 6);
    assert!(!capped.squeezed);
    assert_eq!(capped.crumbs.height, 6, "capped at fold_rows");
}

#[test]
fn split_squeezes_when_the_list_would_fall_under_seven_rows() {
    let body = Rect::new(0, 0, 40, 12);
    let s = split(body, 5, 6);
    assert!(s.squeezed);
    assert_eq!(s.crumbs.height, 1);
    assert_eq!(s.list.height, 10);
}

fn crumb(name: &str, count: usize) -> Crumb {
    Crumb { name: name.to_string(), count: Some(count) }
}

#[test]
fn hit_agrees_with_render_for_a_crumb_and_a_row() {
    let crumbs = vec![crumb("~", 12), crumb("projects/", 9)];
    let body = Rect::new(0, 1, 60, 29);
    let s = split(body, crumbs.len(), 6);
    assert_eq!(hit(body, &crumbs, 6, 0, 2, 5, s.crumbs.y), Some(Hit::Crumb(0)));
    assert_eq!(hit(body, &crumbs, 6, 0, 2, 5, s.crumbs.y + 1), Some(Hit::Crumb(1)));
    assert_eq!(
        hit(body, &crumbs, 6, 0, 2, 5, s.list.y),
        Some(Hit::Row(0)),
        "the first list row lands where render put it"
    );
    assert_eq!(hit(body, &crumbs, 6, 0, 2, 5, s.list.y + 1), Some(Hit::Row(1)));
    assert_eq!(hit(body, &crumbs, 6, 0, 2, 5, s.list.y + 2), None, "past the last row");
}

#[test]
fn a_collapsed_trail_keeps_its_newest_levels() {
    assert_eq!(visible_crumbs(3, 6), (0, 0));
    assert_eq!(visible_crumbs(9, 6), (4, 4));
}

#[test]
fn a_sixty_column_width_drops_the_extension_column() {
    let cols = columns(60, false);
    assert!(!cols.show_ext);
    assert!(cols.show_time);
    let narrow = columns(40, false);
    assert!(!narrow.show_time);
}

#[test]
fn the_name_column_takes_what_the_fixed_columns_leave() {
    let wide = columns(80, true);
    assert!(wide.show_ext);
    assert_eq!(wide.mark_w, 2);
    assert_eq!(wide.name_w, 80 - (2 + 2) - (6 + 2) - (9 + 2) - (12 + 2));
    assert_eq!(columns(5, false).name_w, 0);
}

#[test]
fn the_rule_shows_the_filter_and_truncation() {
    let line = rule_line(50, "starwire/ \u{2500}\u{2500} 2 files", true, Some("car"));
    assert!(line.contains("(truncated)"));
    assert!(line.contains("/car"));
    assert_eq!(line.chars().count(), 50);
}

#[test]
fn eliding_keeps_both_ends() {
    let t: Vec<char> = "/private/tmp/scratchpad/tree".chars().collect();
    let out: String = starfold_ui::panels::elide_middle(&t, 12).into_iter().collect();
    assert_eq!(out, "/priv\u{2026}d/tree");
    assert_eq!(out.chars().count(), 12);
    let short: String = starfold_ui::panels::elide_middle(&t, 3).into_iter().collect();
    assert_eq!(short, "/pr");
    let whole: String = starfold_ui::panels::elide_middle(&t, 40).into_iter().collect();
    assert_eq!(whole, "/private/tmp/scratchpad/tree");
}

#[test]
fn the_visible_rows_are_the_listing_under_the_trail() {
    let body = Rect::new(0, 1, 60, 29);
    assert_eq!(starfold_ui::panels::stack::visible_rows(body, 2, 6), 26);
    assert_eq!(starfold_ui::panels::stack::visible_rows(body, 0, 6), 28);
}

#[test]
fn each_scrollbar_has_its_own_key() {
    assert_ne!(starfold_ui::Bar::Commander(0), starfold_ui::Bar::Commander(1));
    assert_ne!(starfold_ui::Bar::Stack, starfold_ui::Bar::Preview);
}

#[test]
fn a_size_is_pushed_against_the_right_edge() {
    let f = |s: &str, w: u16| -> String {
        starfold_ui::panels::stack::fit_right(&s.chars().collect::<Vec<char>>(), w).into_iter().collect()
    };
    assert_eq!(f("1.2 KB", 9), "   1.2 KB");
    assert_eq!(f("123456789012", 9), "123456789");
    assert_eq!(f("a b ", 3), "a b");
    assert_eq!(f("a   ", 3), "  a");
}

fn chars(s: &str) -> Vec<char> {
    s.chars().collect()
}

#[test]
fn wide_characters_are_fitted_by_the_columns_they_take() {
    let text = chars("\u{65e5}\u{672c}\u{8a9e}");
    let drawn: String = fit(&text, 2).into_iter().collect();
    assert_eq!(drawn, "\u{65e5}");
    let drawn: String = fit(&text, 3).into_iter().collect();
    assert_eq!(drawn, "\u{65e5}");
    let whole: String = fit(&text, 6).into_iter().collect();
    assert_eq!(whole, "\u{65e5}\u{672c}\u{8a9e}");
}

#[test]
fn an_accent_stays_with_its_letter_when_cut() {
    let text = chars("e\u{301}e\u{301}e\u{301}");
    let drawn: String = fit(&text, 2).into_iter().collect();
    assert_eq!(drawn, "e\u{301}e\u{301}");
}

#[test]
fn the_middle_of_a_wide_name_gives_way_by_columns() {
    let text = chars("\u{65e5}\u{672c}\u{8a9e}\u{306e}\u{540d}\u{524d}");
    let out: String = starfold_ui::panels::elide_middle(&text, 7).into_iter().collect();
    assert_eq!(out, "\u{65e5}\u{2026}\u{524d}");
}

#[test]
fn a_right_fitted_wide_text_is_padded_by_its_columns() {
    let out: String = starfold_ui::panels::stack::fit_right(&chars("\u{65e5}"), 4).into_iter().collect();
    assert_eq!(out, "  \u{65e5}");
}

#[test]
fn a_trail_that_fits_is_told_apart_from_one_that_does_not() {
    let crumbs = vec![Crumb { name: "home".into(), count: None }, Crumb { name: "user".into(), count: None }];
    assert!(starfold_ui::panels::stack::trail_fits(0, &crumbs));
    assert!(!starfold_ui::panels::stack::trail_fits(65530, &crumbs));
}
