use starfold_ui::editor::EntryKind;
use starfold_ui::input::{Edit, TextInput};
use starfold_ui::keys::{Key, KeyCode, Mods};
use starfold_ui::labels::{
    audio_candidates, build_op_row, build_row, display_name, home_relative, level_name, op_title,
    running_verb_lower, running_verb_upper, Listed, OpInfo, ViewData,
};
use starfold_ui::ops::{archive_destination, DeleteHow, Format, OpKind, OpStatus};
use starfold_ui::panels::operations::Tone;
use starfold_ui::panels::stack::{Kind, Mark};

#[test]
fn a_level_is_named_for_home_or_its_last_component() {
    assert_eq!(level_name("/home/me", "/home/me"), "~");
    assert_eq!(level_name("/home/me/projects", "/home/me"), "projects/");
    assert_eq!(level_name("/", "/home/me"), "//");
}

#[test]
fn paths_under_home_are_written_with_a_tilde() {
    assert_eq!(home_relative("/home/me", "/home/me"), "~");
    assert_eq!(home_relative("/home/me/Archive/2024", "/home/me"), "~/Archive/2024");
    assert_eq!(home_relative("/home/meow", "/home/me"), "/home/meow");
    assert_eq!(home_relative("/srv", "/home/me"), "/srv");
    assert_eq!(display_name("/tmp/a.txt"), "a.txt");
    assert_eq!(display_name("/"), "/");
}

#[test]
fn each_kind_has_its_running_verb() {
    assert_eq!(running_verb_lower(OpKind::Copy), "copying");
    assert_eq!(running_verb_upper(OpKind::Delete(DeleteHow::Trash)), "DELETING");
    assert_eq!(running_verb_lower(OpKind::Compress(Format::Zip)), "compressing");
}

fn op(status: OpStatus, dest: Option<&str>, sources: &[&str]) -> OpInfo {
    OpInfo {
        kind: OpKind::Copy,
        status,
        title: "COPY 2 items \u{2192} /home/me/Archive".to_string(),
        sources: sources.iter().map(|s| s.to_string()).collect(),
        dest: dest.map(String::from),
        conflicts: 1,
        percent: 42,
        bar: "\u{2588}\u{2588}\u{2588}\u{2588}\u{2591}\u{2591}\u{2591}\u{2591}\u{2591}\u{2591}".to_string(),
    }
}

#[test]
fn an_operation_row_reads_its_status_and_title() {
    let running = op(OpStatus::Running, Some("/home/me/Archive"), &["/home/me/a.txt", "/home/me/b.txt"]);
    let row = build_op_row(&running, "/home/me");
    assert_eq!(row.title, "COPY 2 items: ~/a.txt +1 \u{2192} ~/Archive");
    assert_eq!(row.status, "copying 42%");
    assert_eq!(row.tone, Tone::Running);
    assert_eq!(row.bar.as_deref(), Some(running.bar.as_str()));

    let waiting = op(OpStatus::NeedsPolicy, None, &[]);
    let row = build_op_row(&waiting, "/home/me");
    assert_eq!(row.title, waiting.title);
    assert_eq!(row.status, "waiting: 1 conflict");
    assert_eq!(row.tone, Tone::Conflict);
    assert!(row.bar.is_none());
    assert_eq!(op_title(&waiting, "/home/me"), waiting.title);
    assert_eq!(build_op_row(&op(OpStatus::Cancelled, None, &[]), "/").tone, Tone::Failed);
}

fn listed(path: &str, kind: EntryKind, link_kind: Option<EntryKind>) -> Listed {
    Listed {
        path: path.to_string(),
        display: path.rsplit('/').next().unwrap().to_string(),
        kind,
        link_kind,
        executable: false,
        hidden: false,
        len: 1200,
        ext: "toml".to_string(),
    }
}

#[test]
fn a_listing_row_names_its_kind_size_and_mark() {
    let file = build_row(&listed("/p/Cargo.toml", EntryKind::File, None), false, false, Some("12:00".into()));
    assert_eq!(file.name, "Cargo.toml");
    assert_eq!(file.ext, "toml");
    assert_eq!(file.size, "1.2 KB");
    assert_eq!(file.time, "12:00");
    assert_eq!(file.mark, Mark::NotShown);
    assert_eq!(file.kind, Kind::File);

    let dir = build_row(&listed("/p/src", EntryKind::Dir, None), true, true, None);
    assert_eq!(dir.name, "src/");
    assert_eq!(dir.ext, "dir");
    assert_eq!(dir.size, "-");
    assert_eq!(dir.time, "-");
    assert_eq!(dir.mark, Mark::Marked);

    let broken = build_row(&listed("/p/gone", EntryKind::Symlink, None), true, false, None);
    assert_eq!(broken.kind, Kind::Symlink { broken: true });
    assert_eq!(broken.ext, "link");
    assert_eq!(broken.mark, Mark::Unmarked);
}

#[test]
fn only_files_and_links_to_files_go_to_the_player() {
    let entries = vec![
        listed("/m/a.mp3", EntryKind::File, None),
        listed("/m/dir", EntryKind::Dir, None),
        listed("/m/b.mp3", EntryKind::Symlink, Some(EntryKind::File)),
        listed("/m/c", EntryKind::Symlink, Some(EntryKind::Dir)),
    ];
    assert_eq!(audio_candidates(&entries), vec!["/m/a.mp3".to_string(), "/m/b.mp3".to_string()]);
}

#[test]
fn an_empty_view_is_loading_and_holds_nothing() {
    let v = ViewData::empty();
    assert!(v.loading);
    assert!(v.rows.is_empty() && v.crumbs.is_empty() && v.ops.is_empty());
    assert!(v.preview.is_none());
}

#[test]
fn an_archive_extracts_beside_itself_under_its_base_name() {
    let p = |s: &str| s.chars().collect::<Vec<char>>();
    let out: String = archive_destination(&p("/tmp/book.tar.gz")).into_iter().collect();
    assert_eq!(out, "/tmp/book");
    assert_eq!(Format::from_path(&p("/tmp/x.7z")), Some(Format::SevenZip));
    assert_eq!(Format::from_path(&p("/tmp/x.txt")), None);
    assert_eq!(Format::TarZst.suffix(), "tar.zst");
}

fn typed(t: &mut TextInput, s: &str) {
    for c in s.chars() {
        t.handle(Key::plain(KeyCode::Char(c)));
    }
}

#[test]
fn a_text_field_edits_at_its_caret() {
    let mut t = TextInput::single().with_text("hello");
    assert_eq!(t.cursor(), 5);
    assert_eq!(t.handle(Key::plain(KeyCode::Left)), Edit::Consumed);
    assert_eq!(t.handle(Key::plain(KeyCode::Backspace)), Edit::Consumed);
    assert_eq!(t.text(), "helo");
    assert_eq!(t.handle(Key::plain(KeyCode::Home)), Edit::Consumed);
    typed(&mut t, "o");
    assert_eq!(t.text(), "ohelo");
    assert_eq!(t.handle(Key::new(KeyCode::Char('k'), Mods::ctrl())), Edit::Consumed);
    assert_eq!(t.text(), "o");
    typed(&mut t, "ab");
    assert_eq!(t.handle(Key::new(KeyCode::Char('a'), Mods::ctrl())), Edit::Consumed);
    assert_eq!(t.cursor(), 0);
    assert_eq!(t.handle(Key::plain(KeyCode::Delete)), Edit::Consumed);
    assert_eq!(t.text(), "ab");
    assert_eq!(t.handle(Key::plain(KeyCode::Enter)), Edit::Submit);
    assert_eq!(t.handle(Key::plain(KeyCode::Esc)), Edit::Cancel);
    assert_eq!(t.handle(Key::plain(KeyCode::F(5))), Edit::Ignored);
    t.set_cursor(99);
    assert_eq!(t.cursor(), 2);
}
