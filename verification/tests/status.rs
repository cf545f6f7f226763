use starfold_ui::geometry::Rect;
use starfold_ui::status::{elide_head, fields, hit, Hit, MiddleKind, NoteLevel, StatusView, NOTE_FOR_MS};

fn view(note: Option<(String, NoteLevel, u64)>, now: u64) -> StatusView {
    StatusView {
        note,
        now,
        progress: Some("COPYING \u{2588}\u{2588}\u{2588}\u{2591}\u{2591} 60%".to_string()),
        hints: "/ filter  space mark  enter open".to_string(),
        marked: "2 marked \u{b7} 14.2 MB".to_string(),
        location: "~/projects/starwire".to_string(),
        graphics: "kitty".to_string(),
    }
}

#[test]
fn the_middle_field_prefers_a_fresh_note_then_progress_then_hints() {
    let at = 1_000_000u64;
    let note = ("saved".to_string(), NoteLevel::Info, at);

    let fresh = view(Some(note.clone()), at + 1000);
    assert_eq!(fresh.middle().0, "saved");
    assert_eq!(fresh.middle().1, MiddleKind::Note(NoteLevel::Info));

    let stale_but_running = view(Some(note), at + NOTE_FOR_MS + 1);
    assert!(stale_but_running.middle().0.contains("60%"));
    assert_eq!(stale_but_running.middle().1, MiddleKind::Progress);

    let mut idle = view(None, at);
    idle.progress = None;
    assert_eq!(idle.middle().0, idle.hints);
    assert_eq!(idle.middle().1, MiddleKind::Hints);
}

#[test]
fn the_right_field_is_stable_and_help_sits_at_the_left_edge() {
    let v = view(None, 0);
    let area = Rect::new(0, 0, 80, 1);
    let f = fields(area, &v);
    assert_eq!(f.help.x, 0);
    assert!(f.location.width > 0, "location should have been drawn");
    assert!(v.right(200).0.contains(v.location.as_str()));
}

#[test]
fn a_narrow_right_field_elides_the_head_of_the_location() {
    let v = view(None, 0);
    let (_, loc) = v.right(30);
    assert_eq!(loc, "\u{2026}/starwire");
    assert!(loc.starts_with('\u{2026}'), "{loc:?}");
    assert!(loc.ends_with("starwire"), "{loc:?}");
    let text: Vec<char> = "abcdef".chars().collect();
    let elided: String = elide_head(&text, 4).into_iter().collect();
    assert_eq!(elided, "\u{2026}def");
    let whole: String = elide_head(&text, 6).into_iter().collect();
    assert_eq!(whole, "abcdef");
}

#[test]
fn a_click_on_help_answers_help() {
    let v = view(None, 0);
    let area = Rect::new(0, 0, 80, 1);
    assert_eq!(hit(area, &v, 0, 0), Some(Hit::Help));
    let f = fields(area, &v);
    assert_eq!(hit(area, &v, f.location.x, 0), Some(Hit::Location));
    assert_eq!(hit(area, &v, f.middle.x, 0), Some(Hit::Progress));
    assert_eq!(hit(area, &v, 0, 5), None);
}

#[test]
fn a_wide_location_loses_its_head_by_columns() {
    let text: Vec<char> = "/\u{65e5}\u{672c}\u{8a9e}".chars().collect();
    let out: String = elide_head(&text, 5).into_iter().collect();
    assert_eq!(out, "\u{2026}\u{672c}\u{8a9e}");
    let out: String = elide_head(&text, 4).into_iter().collect();
    assert_eq!(out, "\u{2026}\u{8a9e}");
}
