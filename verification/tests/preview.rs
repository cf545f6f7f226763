use starfold_ui::geometry::Rect;
use starfold_ui::panels::operations::{activity_status, hit, running, summary_row_index, OpRow, Tone};
use starfold_ui::panels::preview::{folded_summary, lines, size, DirSummary, Preview};

fn text(head: &str, bytes: u64, lines: usize) -> Preview {
    Preview::Text { head: head.to_string(), truncated: false, bytes, lines }
}

#[test]
fn a_text_file_folds_to_name_extension_size_and_line_count() {
    let p = text("abc\n", 1200, 31);
    assert_eq!(
        folded_summary(Some("Cargo.toml"), Some(&p)).unwrap(),
        "Cargo.toml \u{b7} toml \u{b7} 1.2 KB \u{b7} 31 lines"
    );
    assert_eq!(folded_summary(Some("Makefile"), Some(&p)).unwrap(), "Makefile \u{b7} - \u{b7} 1.2 KB \u{b7} 31 lines");
}

#[test]
fn an_image_folds_to_name_format_and_dimensions() {
    let p = Preview::Image { width: 64, height: 48, format: "png" };
    assert_eq!(folded_summary(Some("harbour.png"), Some(&p)).unwrap(), "harbour.png \u{b7} png \u{b7} 64 \u{d7} 48");
}

#[test]
fn a_directory_folds_to_its_name_and_counts() {
    let s = DirSummary { files: 14, dirs: 3, bytes: 428_000, truncated: false };
    let p = Preview::Dir(s);
    assert_eq!(
        folded_summary(Some("src/"), Some(&p)).unwrap(),
        "src/ \u{b7} 14 files \u{b7} 3 dirs \u{b7} 428.0 KB"
    );
}

#[test]
fn a_symlink_folds_to_an_arrow_and_its_target() {
    let p = Preview::Symlink { target: "target".to_string(), broken: false };
    assert_eq!(folded_summary(Some("build"), Some(&p)).unwrap(), "\u{2192} target");
    let broken = Preview::Symlink { target: "gone".to_string(), broken: true };
    assert_eq!(folded_summary(Some("dangling"), Some(&broken)).unwrap(), "\u{2192} gone (broken)");
}

#[test]
fn an_error_folds_to_its_message() {
    let p = Preview::Error("permission denied".into());
    assert_eq!(folded_summary(Some("secret"), Some(&p)).unwrap(), "permission denied");
}

#[test]
fn a_binary_file_folds_to_its_type_and_nothing_folds_to_nothing() {
    let p = Preview::Binary { rows: Vec::new(), truncated: true, mime: "application/octet-stream".into() };
    assert_eq!(
        folded_summary(None, Some(&p)).unwrap(),
        "- \u{b7} application/octet-stream \u{b7} truncated"
    );
    assert_eq!(folded_summary(Some("x"), Some(&Preview::Empty)).unwrap(), "empty file");
    assert_eq!(folded_summary(Some("x"), None), None);
}

#[test]
fn sizes_read_in_thousands_with_one_decimal() {
    assert_eq!(size(999), "999 B");
    assert_eq!(size(1000), "1.0 KB");
    assert_eq!(size(1200), "1.2 KB");
    assert_eq!(size(14_200_000), "14.2 MB");
    assert_eq!(size(3_000_000_000), "3.0 GB");
}

#[test]
fn text_scrolls_from_the_given_offset() {
    let out = lines(&text("one\ntwo\nthree\nfour\n", 20, 4), 30);
    assert!(out[2].starts_with("three"), "{out:?}");
}

#[test]
fn lines_renders_a_hexdump_row_per_row() {
    let p = Preview::Binary {
        rows: vec!["00000000  48 65 6c 6c 6f  |Hello|".to_string()],
        truncated: false,
        mime: "application/octet-stream".into(),
    };
    let out = lines(&p, 80);
    assert_eq!(out.len(), 1);
    assert!(out[0].starts_with("00000000"));
}

#[test]
fn lines_counts_a_text_files_rows_the_way_the_file_does() {
    let t = |head: &str| text(head, head.len() as u64, 0);
    assert_eq!(lines(&t("a\nb\n"), 80).len(), 2, "a single trailing newline is not a phantom third line");
    assert_eq!(lines(&t("a\n\nb"), 80).len(), 3, "a genuine blank line in the middle still counts");
    assert_eq!(lines(&t("a\n\n"), 80).len(), 2, "a blank line doubled at the end still counts, once");
}

#[test]
fn lines_expand_tabs_drop_carriage_returns_and_fit_the_width() {
    assert_eq!(lines(&text("\tx\r\nlong line", 0, 0), 4), vec!["    ".to_string(), "long".to_string()]);
    let d = DirSummary { files: 1, dirs: 2, bytes: 10, truncated: true };
    assert_eq!(
        lines(&Preview::Dir(d), 80),
        vec!["1 file".to_string(), "2 directories".to_string(), "10 B".to_string(), "(at least)".to_string()]
    );
    assert!(lines(&Preview::Image { width: 1, height: 1, format: "png" }, 80).is_empty());
}

fn row(title: &str, status: &str, tone: Tone) -> OpRow {
    OpRow { title: title.to_string(), status: status.to_string(), bar: None, tone }
}

#[test]
fn folded_shows_the_running_op_over_a_pending_one() {
    let rows = vec![
        row("COPY 2 items \u{2192} ~/Archive", "queued", Tone::Pending),
        row("MOVE 1 item \u{2192} ~/Docs", "copying 78%", Tone::Running),
    ];
    assert_eq!(summary_row_index(&rows), Some(1));
    assert_eq!(rows[summary_row_index(&rows).unwrap()].status, "copying 78%");
}

#[test]
fn folded_falls_back_to_the_first_pending_op_then_to_nothing_queued() {
    let rows = vec![row("COPY 2 items \u{2192} ~/Archive", "queued", Tone::Pending)];
    assert_eq!(summary_row_index(&rows), Some(0));
    let empty: Vec<OpRow> = Vec::new();
    assert_eq!(summary_row_index(&empty), None);
    let done = vec![row("MOVE", "done", Tone::Done)];
    assert_eq!(summary_row_index(&done), None);
}

#[test]
fn unmount_activity_is_visible_but_not_a_selectable_queue_row() {
    let rows = vec![row("COPY 1 item \u{2192} ~/Work", "queued", Tone::Pending)];
    let body = Rect::new(1, 2, 58, 4);
    assert_eq!(hit(body, false, true, 0, rows.len(), 5, body.y), None);
    assert_eq!(hit(body, false, true, 0, rows.len(), 5, body.y + 1), Some(0));
    assert_eq!(activity_status(&rows), "unmounting");
    let busy = vec![row("COPY", "copying 5%", Tone::Running)];
    assert_eq!(activity_status(&busy), "waiting");
}

#[test]
fn the_open_view_lists_every_row_and_hit_answers_the_pointer() {
    let rows = vec![
        row("COPY 2 items \u{2192} ~/Archive", "queued", Tone::Pending),
        row("MOVE 1 item \u{2192} ~/Docs", "done", Tone::Done),
    ];
    let body = Rect::new(1, 2, 58, 3);
    assert_eq!(hit(body, false, false, 0, rows.len(), 5, body.y), Some(0));
    assert_eq!(hit(body, false, false, 0, rows.len(), 5, body.y + 1), Some(1));
    assert_eq!(hit(body, false, false, 0, rows.len(), 5, body.y + 2), None);
    assert_eq!(hit(body, true, false, 0, rows.len(), 5, body.y), None, "a folded module has no rows to hit");
}

#[test]
fn the_title_carries_the_running_percentage() {
    let rows = vec![row("COPY 2 items \u{2192} ~/Archive", "copying 42%", Tone::Running)];
    let i = running(&rows).unwrap();
    assert!(rows[i].status.contains("copying 42%"));
}

use starfold_ui::geometry::placement;
use starfold_ui::ops::OpId;
use starfold_ui::panels::operations::running_op_id;
use starfold_ui::panels::preview::{centre, dir_lines, ext_of, placing, Placing, Scale};

const CELL: Option<(u16, u16)> = Some((10, 20));

fn panel() -> Rect {
    Rect::new(3, 5, 40, 20)
}

#[test]
fn one_x_centres_a_small_picture_at_its_own_size() {
    match placing(Scale::One, (100, 60), panel(), CELL) {
        Placing::Natural(r) => {
            assert_eq!((r.width, r.height), (10, 3));
            assert_eq!(r.x, 3 + (40 - 10) / 2);
            assert_eq!(r.y, 5 + (20 - 3) / 2);
        }
        other => panic!("1x never makes a new picture: {other:?}"),
    }
}

#[test]
fn one_x_rounds_a_part_cell_up_rather_than_cropping() {
    match placing(Scale::One, (101, 61), panel(), CELL) {
        Placing::Natural(r) => assert_eq!((r.width, r.height), (11, 4)),
        other => panic!("{other:?}"),
    }
}

#[test]
fn pixels_takes_the_largest_whole_factor_that_fits() {
    match placing(Scale::Pixels, (100, 60), panel(), CELL) {
        Placing::Grown { rect, pixels_w, pixels_h, factor } => {
            assert_eq!(factor, 4);
            assert_eq!((pixels_w, pixels_h), (400, 240));
            assert_eq!((rect.width, rect.height), (40, 12));
        }
        other => panic!("{other:?}"),
    }
    match placing(Scale::Pixels, (101, 60), panel(), CELL) {
        Placing::Grown { factor, .. } => assert_eq!(factor, 3),
        other => panic!("{other:?}"),
    }
}

#[test]
fn a_factor_of_one_scales_nothing() {
    let p = placing(Scale::Pixels, (300, 300), panel(), CELL);
    assert_eq!(p, placing(Scale::One, (300, 300), panel(), CELL));
    assert!(matches!(p, Placing::Natural(_)));
}

#[test]
fn a_picture_bigger_than_the_panel_is_fitted_in_every_whole_mode() {
    for mode in [Scale::One, Scale::Pixels] {
        assert_eq!(placing(mode, (4000, 3000), panel(), CELL), Placing::Fit);
    }
    assert_eq!(placing(Scale::Smooth, (100, 60), panel(), CELL), Placing::Smooth);
}

#[test]
fn an_unmeasured_cell_leaves_all_three_modes_fitting() {
    for mode in [Scale::One, Scale::Pixels, Scale::Smooth] {
        assert_eq!(placing(mode, (100, 60), panel(), None), Placing::Fit, "{mode:?}");
    }
    assert_eq!(placing(Scale::One, (0, 60), panel(), CELL), Placing::Fit);
    assert_eq!(Scale::Pixels.name(), "pixels");
    assert_eq!(Scale::One.name(), "1x");
}

#[test]
fn no_size_makes_a_placing_that_escapes_its_panel() {
    let mut seed: u32 = 7;
    let mut next = |m: u32| {
        seed = seed.wrapping_mul(1664525).wrapping_add(1013904223);
        (seed >> 8) % m
    };
    for _ in 0..2000 {
        let img = (next(9000), next(9000));
        let p = Rect::new(7, 11, next(200) as u16, next(200) as u16);
        let cell = if next(5) == 0 { None } else { Some((next(64) as u16, next(64) as u16)) };
        let mode = [Scale::One, Scale::Pixels, Scale::Smooth][next(3) as usize];
        let r = match placing(mode, img, p, cell) {
            Placing::Natural(r) => r,
            Placing::Grown { rect, pixels_w, pixels_h, factor } => {
                let (cw, ch) = cell.unwrap();
                assert!(factor >= 2);
                assert!(pixels_w > 0 && pixels_h > 0);
                assert!(pixels_w <= u32::from(rect.width) * u32::from(cw));
                assert!(pixels_h <= u32::from(rect.height) * u32::from(ch));
                rect
            }
            Placing::Fit | Placing::Smooth => continue,
        };
        assert!(r.x >= p.x && r.y >= p.y && r.x + r.width <= p.x + p.width && r.y + r.height <= p.y + p.height);
    }
}

#[test]
fn centre_keeps_the_rectangle_inside_the_area() {
    assert_eq!(centre(Rect::new(0, 0, 10, 10), 4, 2), Rect::new(3, 4, 4, 2));
    assert_eq!(centre(Rect::new(5, 5, 4, 4), 10, 10), Rect::new(5, 5, 4, 4));
}

#[test]
fn placement_is_relative_and_cannot_leave_body() {
    let body = Rect::new(10, 20, 15, 8);
    assert_eq!(placement(body, 2, 1, 3, 2), Some(Rect::new(12, 21, 3, 2)));
    assert_eq!(placement(body, 13, 1, 3, 2), None);
    assert_eq!(placement(body, u16::MAX, 1, 3, 2), None);
    assert_eq!(placement(body, 2, 1, 0, 2), None);
}

#[test]
fn the_running_operation_is_named_by_its_id() {
    let rows = vec![row("COPY", "queued", Tone::Pending), row("MOVE", "moving 3%", Tone::Running)];
    assert_eq!(running_op_id(&vec![OpId(4), OpId(9)], &rows), Some(OpId(9)));
    assert_eq!(running_op_id(&vec![OpId(4)], &rows), None);
    assert_eq!(running_op_id(&vec![OpId(4), OpId(9)], &rows[..1].to_vec()), None);
}

#[test]
fn a_directory_summary_counts_in_words() {
    let one = DirSummary { files: 1, dirs: 1, bytes: 2_500_000, truncated: false };
    assert_eq!(dir_lines(&one), vec!["1 file".to_string(), "1 directory".to_string(), "2.5 MB".to_string()]);
}

#[test]
fn the_extension_is_what_follows_the_last_dot() {
    let e = |s: &str| ext_of(&s.chars().collect::<Vec<char>>()).map(|v| v.into_iter().collect::<String>());
    assert_eq!(e("Cargo.toml"), Some("toml".to_string()));
    assert_eq!(e("archive.tar.gz"), Some("gz".to_string()));
    assert_eq!(e(".bashrc"), Some("bashrc".to_string()));
    assert_eq!(e("trailing."), None);
    assert_eq!(e("Makefile"), None);
}
