use starfold_ui::geometry::Rect;
use starfold_ui::keys::{Key, KeyCode, Mods};
use starfold_ui::ops::{Conflict, ConflictPolicy, Format, OpId, OpKind};
use starfold_ui::overlays::confirm::{self, Confirm};
use starfold_ui::overlays::conflict::{self, Prompt};
use starfold_ui::overlays::context::{self, Destination, Menu, Request, Target};
use starfold_ui::overlays::create::{self, Create, Kind, Search};
use starfold_ui::overlays::rename::{self, validate, with_file_name, Rename};
use starfold_ui::overlays::{reply, Answer, Overlay, Overlays, Pending, Reply};

fn key(c: char) -> Key {
    Key::plain(KeyCode::Char(c))
}

fn code(c: KeyCode) -> Key {
    Key::plain(c)
}

fn ctrl(c: char) -> Key {
    Key::new(KeyCode::Char(c), Mods::ctrl())
}

fn one_conflict() -> Prompt {
    Prompt::new(
        OpId(1),
        vec![Conflict { source: "/src/a.txt".to_string(), dest: "/dest/a.txt".to_string(), both_dirs: false }],
    )
}

fn every_overlay() -> Vec<fn(&mut Overlays)> {
    vec![
        |o: &mut Overlays| o.open_help(),
        |o: &mut Overlays| o.open_confirm(Confirm::clear_queue(2)),
        |o: &mut Overlays| o.open_rename("/tmp/a.txt".to_string()),
        |o: &mut Overlays| o.open_conflict(one_conflict()),
    ]
}

#[test]
fn nothing_is_open_to_begin_with() {
    let o = Overlays::new();
    assert!(!o.is_open());
    assert!(o.current().is_none());
}

#[test]
fn the_help_opens_and_the_help_key_closes_it() {
    let mut o = Overlays::new();
    o.open_help();
    assert!(o.is_open());
    assert_eq!(o.handle(key('?')), Answer::Closed);
    assert!(!o.is_open());
}

#[test]
fn escape_closes_every_overlay() {
    for open in every_overlay() {
        let mut o = Overlays::new();
        open(&mut o);
        assert_eq!(o.handle(code(KeyCode::Esc)), Answer::Closed);
        assert!(!o.is_open());
    }
}

#[test]
fn ctrl_c_quits_from_inside_any_overlay() {
    for open in every_overlay() {
        let mut o = Overlays::new();
        open(&mut o);
        assert_eq!(o.handle(ctrl('c')), Answer::Quit);
        assert!(!o.is_open());
    }
}

#[test]
fn a_closed_overlay_ignores_keys_and_clicks() {
    let mut o = Overlays::new();
    assert_eq!(o.handle(key('y')), Answer::Closed);
    assert_eq!(o.click(3, 3, Rect::new(0, 0, 100, 40)), Answer::Closed);
    assert!(!o.is_open());
}

#[test]
fn a_confirmation_answers_on_y_and_on_n() {
    let mut o = Overlays::new();
    o.open_confirm(Confirm::delete_permanently(OpId(5), 3));
    assert_eq!(o.handle(key('y')), Answer::Confirmed(Pending::DeletePermanently(OpId(5))));
    assert!(!o.is_open());

    o.open_confirm(Confirm::delete_permanently(OpId(5), 3));
    assert_eq!(o.handle(key('n')), Answer::Closed);
    assert!(!o.is_open());
}

#[test]
fn a_confirmation_waits_on_any_other_key() {
    let mut o = Overlays::new();
    o.open_confirm(Confirm::clear_queue(2));
    assert_eq!(o.handle(key('x')), Answer::Consumed);
    assert!(o.is_open());
    assert_eq!(reply(code(KeyCode::Enter)), Reply::Yes);
    assert_eq!(reply(key('N')), Reply::No);
    assert_eq!(reply(ctrl('c')), Reply::Quit);
    assert_eq!(reply(key('z')), Reply::Waiting);
}

#[test]
fn a_confirmation_answers_on_a_click_of_either_word() {
    let area = Rect::new(0, 0, 60, 21);
    let mut o = Overlays::new();
    o.open_confirm(Confirm::delete_permanently(OpId(5), 3));
    let l = match o.current() {
        Some(Overlay::Confirm(c)) => confirm::layout(area, c).unwrap(),
        _ => unreachable!(),
    };
    assert_eq!(o.click(l.yes.0, l.footer_y, area), Answer::Confirmed(Pending::DeletePermanently(OpId(5))));
    assert!(!o.is_open());

    o.open_confirm(Confirm::delete_permanently(OpId(5), 3));
    let l = match o.current() {
        Some(Overlay::Confirm(c)) => confirm::layout(area, c).unwrap(),
        _ => unreachable!(),
    };
    assert_eq!(o.click(l.no.0, l.footer_y, area), Answer::Closed);
    assert!(!o.is_open());
}

#[test]
fn a_click_outside_the_box_closes_whatever_is_open() {
    let area = Rect::new(0, 0, 100, 40);
    for open in every_overlay() {
        let mut o = Overlays::new();
        open(&mut o);
        assert_eq!(o.click(0, 0, area), Answer::Closed, "at (0, 0) in a {area:?} box");
        assert!(!o.is_open());
    }
}

#[test]
fn a_rename_submits_a_changed_name() {
    let mut o = Overlays::new();
    o.open_rename("/tmp/a.txt".to_string());
    o.handle(code(KeyCode::End));
    o.handle(ctrl('u'));
    for c in "b.txt".chars() {
        o.handle(key(c));
    }
    assert_eq!(
        o.handle(code(KeyCode::Enter)),
        Answer::Renamed { from: "/tmp/a.txt".to_string(), to: "/tmp/b.txt".to_string() }
    );
    assert!(!o.is_open());
}

#[test]
fn a_conflict_prompt_answers_on_o_s_and_r() {
    let mut o = Overlays::new();
    o.open_conflict(one_conflict());
    assert_eq!(o.handle(key('o')), Answer::Policy { op: OpId(1), policy: ConflictPolicy::Overwrite });
    assert!(!o.is_open());
    o.open_conflict(one_conflict());
    assert_eq!(o.handle(key('s')), Answer::Policy { op: OpId(1), policy: ConflictPolicy::Skip });
    o.open_conflict(one_conflict());
    assert_eq!(o.handle(key('r')), Answer::Policy { op: OpId(1), policy: ConflictPolicy::RenameNew });
}

#[test]
fn a_conflict_prompt_stays_queued_on_escape() {
    let mut o = Overlays::new();
    o.open_conflict(one_conflict());
    assert_eq!(o.handle(code(KeyCode::Esc)), Answer::Closed);
    assert!(!o.is_open());
}

#[test]
fn opening_one_overlay_replaces_whatever_was_open() {
    let mut o = Overlays::new();
    o.open_help();
    assert!(matches!(o.current(), Some(Overlay::Help { .. })));
    o.open_confirm(Confirm::clear_queue(2));
    assert!(matches!(o.current(), Some(Overlay::Confirm(_))));
    o.open_rename("/tmp/a.txt".to_string());
    assert!(matches!(o.current(), Some(Overlay::Rename(_))));
    o.open_conflict(one_conflict());
    assert!(matches!(o.current(), Some(Overlay::Conflict(_))));
    o.open_help();
    assert!(matches!(o.current(), Some(Overlay::Help { .. })));
}

#[test]
fn a_single_item_reads_as_singular() {
    let c = Confirm::delete_permanently(OpId(1), 1);
    assert!(c.body[0].contains("1 item "), "{:?}", c.body);
    let c = Confirm::delete_permanently(OpId(1), 3);
    assert!(c.body[0].contains("3 items "), "{:?}", c.body);
}

#[test]
fn each_question_names_its_own_answers() {
    assert_eq!(Confirm::delete_permanently(OpId(1), 1).yes, "delete");
    assert_eq!(Confirm::clear_queue(2).yes, "clear");
    assert_eq!(Confirm::cancel_running(OpId(1), "COPY 1 item").yes, "stop");
    assert_eq!(Confirm::quit_with_running("COPY 1 item").yes, "quit");
}

#[test]
fn a_long_body_wraps_rather_than_overruns_the_box() {
    let long = "x ".repeat(80);
    let c = Confirm { title: "t".into(), body: vec![long], yes: "y", no: "n", pending: Pending::ClearQueue };
    let area = Rect::new(0, 0, 60, 21);
    let l = confirm::layout(area, &c).expect("it fits");
    assert!(l.body_rows.len() > 1, "a long line should wrap");
    for row in &l.body_rows {
        assert!(row.chars().count() <= l.inner.width as usize);
    }
}

#[test]
fn the_confirm_box_is_centred_with_its_footer_words() {
    let area = Rect::new(0, 0, 60, 21);
    let c = Confirm::delete_permanently(OpId(1), 4);
    let l = confirm::layout(area, &c).expect("it fits");
    assert_eq!(l.rect.width, 56);
    assert_eq!(l.inner.width, 54);
    assert_eq!(l.body_rows[0], "4 items will be permanently deleted.");
    assert!(l.yes.0 < l.yes.1 && l.yes.1 <= l.no.0 && l.no.0 < l.no.1);
    assert!(confirm::layout(Rect::new(0, 0, 0, 0), &c).is_none());
}

fn conflict(name: &str) -> Conflict {
    Conflict { source: format!("/src/{name}"), dest: format!("/dest/{name}"), both_dirs: false }
}

#[test]
fn o_s_r_answer_with_the_matching_policy() {
    let mut p = Prompt::new(OpId(1), vec![conflict("a")]);
    assert_eq!(p.handle(key('o')), conflict::Action::Policy(ConflictPolicy::Overwrite));
    assert_eq!(p.handle(key('s')), conflict::Action::Policy(ConflictPolicy::Skip));
    assert_eq!(p.handle(key('r')), conflict::Action::Policy(ConflictPolicy::RenameNew));
}

#[test]
fn j_and_k_move_the_reading_cursor_without_answering() {
    let mut p = Prompt::new(OpId(1), vec![conflict("a"), conflict("b"), conflict("c")]);
    assert_eq!(p.handle(key('j')), conflict::Action::Taken);
    assert_eq!(p.cursor, 1);
    assert_eq!(p.handle(key('k')), conflict::Action::Taken);
    assert_eq!(p.cursor, 0);
    assert_eq!(p.handle(key('k')), conflict::Action::Taken);
    assert_eq!(p.cursor, 0);
}

#[test]
fn a_conflict_footer_click_answers_its_word() {
    let area = Rect::new(0, 0, 60, 21);
    let p = Prompt::new(OpId(1), vec![conflict("a.txt"), conflict("b.txt")]);
    let l = conflict::layout(area, &p).expect("it fits");
    let mut found = Vec::new();
    for x in area.x..area.x + area.width {
        if let Some(policy) = conflict::hit_footer(&l, x, l.footer_y) {
            if !found.contains(&policy) {
                found.push(policy);
            }
        }
    }
    assert_eq!(found, vec![ConflictPolicy::Overwrite, ConflictPolicy::Skip, ConflictPolicy::RenameNew]);
    assert_eq!(conflict::hit_footer(&l, 0, 0), None);
}

fn target() -> Target {
    Target {
        clicked: "/tmp/book.zip".into(),
        directory: false,
        sources: vec!["/tmp/book.zip".into()],
        destination: "/tmp".into(),
        create_dir: "/tmp".into(),
    }
}

#[test]
fn archive_menu_exposes_extract() {
    let m = Menu::new(target(), (98, 29));
    assert!(m.actions.contains(&context::Action::Extract));
    assert_eq!(m.target.sources.len(), 1);
}

#[test]
fn an_empty_target_only_offers_creation() {
    let mut t = target();
    t.sources.clear();
    let m = Menu::new(t, (0, 0));
    assert_eq!(m.actions, vec![context::Action::CreateFile, context::Action::CreateDirectory]);
    assert_eq!(m.title, "directory actions");
}

#[test]
fn format_cycle_changes_suffix_and_queued_format() {
    let mut d = Destination::new(Request {
        kind: OpKind::Compress(Format::Zip),
        sources: vec!["a".into()],
        destination: "/tmp/a.zip".into(),
    });
    d.handle(code(KeyCode::Tab));
    let r = d.handle(code(KeyCode::Enter)).unwrap();
    assert_eq!(r.kind, OpKind::Compress(Format::Tar));
    assert_eq!(r.destination, "/tmp/a.tar");
}

#[test]
fn menu_stays_inside_terminal() {
    for (w, h, x, y) in [(1u16, 1u16, 0u16, 0u16), (10, 5, 299, 199), (200, 100, 150, 90), (30, 4, 3, 2)] {
        let m = Menu::new(target(), (x, y));
        let area = Rect::new(0, 0, w, h);
        let r = m.rect(area);
        assert!(r.x + r.width <= area.x + area.width);
        assert!(r.y + r.height <= area.y + area.height);
    }
}

#[test]
fn invalid_name_stays_open_and_valid_name_submits() {
    let mut form = Create::new("/tmp".into(), Kind::Directory);
    assert_eq!(form.handle(code(KeyCode::Enter)), create::Action::Taken);
    assert!(form.error.is_some());
    for c in "new folder".chars() {
        form.handle(key(c));
    }
    assert_eq!(
        form.handle(code(KeyCode::Enter)),
        create::Action::Create { dir: "/tmp".into(), kind: Kind::Directory, name: "new folder".into() }
    );
}

#[test]
fn a_new_name_is_refused_for_each_reason() {
    let v = |s: &str| create::validate_name(&s.chars().collect::<Vec<char>>());
    assert_eq!(v(""), Some("a name cannot be empty"));
    assert_eq!(v(".."), Some("that is not a name"));
    assert_eq!(v("a/b"), Some("a name cannot contain /"));
    assert_eq!(v("fine"), None);
}

#[test]
fn a_search_submits_its_query() {
    let mut s = Search::new("");
    assert_eq!(s.handle(code(KeyCode::Enter)), None);
    assert!(s.error.is_some());
    for c in "notes".chars() {
        s.handle(key(c));
    }
    assert_eq!(s.handle(code(KeyCode::Enter)), Some("notes".to_string()));
}

#[test]
fn the_cursor_starts_before_the_extension() {
    let r = Rename::new("/tmp/Cargo.toml".to_string());
    assert_eq!(r.input.cursor(), 5);
    assert_eq!(r.input.text(), "Cargo.toml");
}

#[test]
fn a_dotfile_has_no_extension_to_protect() {
    let r = Rename::new("/tmp/.gitignore".to_string());
    assert_eq!(r.input.cursor(), r.input.text().len());
}

#[test]
fn a_name_with_no_dot_puts_the_cursor_at_the_end() {
    let r = Rename::new("/tmp/README".to_string());
    assert_eq!(r.input.cursor(), r.input.text().len());
}

fn chars(r: &mut Rename, s: &str) {
    for c in s.chars() {
        r.handle(key(c));
    }
}

#[test]
fn an_empty_name_is_refused_and_the_overlay_stays_open() {
    let mut r = Rename::new("/tmp/a.txt".to_string());
    r.input.clear();
    assert_eq!(r.handle(code(KeyCode::Enter)), rename::Action::Taken);
    assert!(r.error.is_some());
}

#[test]
fn a_name_with_a_slash_is_refused() {
    let mut r = Rename::new("/tmp/a.txt".to_string());
    r.input.clear();
    chars(&mut r, "b/c");
    assert_eq!(r.handle(code(KeyCode::Enter)), rename::Action::Taken);
    assert!(r.error.is_some());
}

#[test]
fn an_unchanged_name_is_refused() {
    let mut r = Rename::new("/tmp/a.txt".to_string());
    assert_eq!(r.handle(code(KeyCode::Enter)), rename::Action::Taken);
    assert!(r.error.is_some());
}

#[test]
fn a_changed_name_submits_as_renamed() {
    let mut r = Rename::new("/tmp/a.txt".to_string());
    r.input.clear();
    chars(&mut r, "b.txt");
    assert_eq!(r.handle(code(KeyCode::Enter)), rename::Action::Renamed("/tmp/b.txt".to_string()));
}

#[test]
fn escape_cancels() {
    let mut r = Rename::new("/tmp/a.txt".to_string());
    assert_eq!(r.handle(code(KeyCode::Esc)), rename::Action::Close);
}

#[test]
fn renaming_replaces_only_the_last_component() {
    let p = |s: &str| s.chars().collect::<Vec<char>>();
    let joined: String = with_file_name(&p("/tmp/dir/a.txt"), &p("b.txt")).into_iter().collect();
    assert_eq!(joined, "/tmp/dir/b.txt");
    assert_eq!(validate(&p(""), &p("/tmp/a.txt")), Err("a name cannot be empty"));
    assert_eq!(validate(&p("a.txt"), &p("/tmp/a.txt")), Err("that is the name it already has"));
    assert_eq!(validate(&p("b.txt"), &p("/tmp/a.txt")).map(|v| v.into_iter().collect::<String>()), Ok("/tmp/b.txt".to_string()));
}

#[test]
fn the_small_boxes_are_centred() {
    let area = Rect::new(0, 0, 100, 40);
    let r = rename::rect(area);
    assert_eq!(r.width, 60);
    assert_eq!(r.x, 20);
    let c = create::rect(area);
    assert_eq!(c.height, 4);
    let d = Destination::rect(area);
    assert!(d.width <= 76 && d.width >= 24);
}

#[test]
fn a_change_through_current_mut_is_what_current_then_shows() {
    let mut o = Overlays::new();
    assert!(o.current_mut().is_none());
    let c = Conflict { source: "/a/x".into(), dest: "/b/x".into(), both_dirs: false };
    o.open_conflict(Prompt::new(OpId(3), vec![c.clone(), c]));
    assert_eq!(o.current_mut().is_some(), o.is_open());
    if let Some(Overlay::Conflict(q)) = o.current_mut() {
        q.scroll = 1;
    }
    match o.current() {
        Some(Overlay::Conflict(p)) => {
            assert_eq!(p.scroll, 1);
            assert_eq!(p.op, OpId(3));
            assert_eq!(p.cursor, 0);
            assert_eq!(p.conflicts.len(), 2);
        }
        _ => panic!("the conflict prompt is open"),
    }
}
