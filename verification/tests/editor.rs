use starfold_ui::editor::{content_rect, editor_argv, extension, is_editable, key_bytes, paste_bytes, EditorError, Entry, EntryKind};
use starfold_ui::geometry::Rect;
use starfold_ui::keys::{Key, KeyCode, Mods};

#[test]
fn editor_command_precedence_and_quoting_keep_path_as_one_arg() {
    let path = "/tmp/-draft with spaces.txt";
    assert_eq!(
        editor_argv(Some("nvim --cmd 'set number'"), Some("nano"), path).unwrap(),
        vec!["nvim", "--cmd", "set number", "/tmp/-draft with spaces.txt"]
            .into_iter()
            .map(String::from)
            .collect::<Vec<_>>()
    );
    assert_eq!(editor_argv(None, None, path).unwrap()[0], "vi");
}

#[test]
fn a_blank_visual_falls_back_and_bad_quoting_is_refused() {
    assert_eq!(editor_argv(Some("  "), Some("nano -w"), "/f").unwrap(), vec!["nano", "-w", "/f"]);
    assert_eq!(editor_argv(Some("vim 'unclosed"), None, "/f"), Err(EditorError::Parse));
    assert_eq!(editor_argv(Some("''"), None, "/f").map(|v| v.len()), Ok(2));
}

fn file(path: &str) -> Entry {
    Entry { path: path.to_string(), kind: EntryKind::File, link_kind: None }
}

#[test]
fn editable_regular_text_and_symlinks_but_not_directories_or_known_binary() {
    assert!(is_editable(&file("/tmp/note.txt")));
    assert!(is_editable(&file("/tmp/Makefile")));
    assert!(is_editable(&file("/tmp/config.json")));
    assert!(!is_editable(&file("/tmp/blob.bin")));
    assert!(!is_editable(&file("/tmp/photo.png")));
    assert!(!is_editable(&Entry { path: "/tmp".to_string(), kind: EntryKind::Dir, link_kind: None }));
    assert!(is_editable(&Entry {
        path: "/tmp/link.txt".to_string(),
        kind: EntryKind::Symlink,
        link_kind: Some(EntryKind::File),
    }));
    assert!(!is_editable(&Entry {
        path: "/tmp/link".to_string(),
        kind: EntryKind::Symlink,
        link_kind: Some(EntryKind::Dir),
    }));
}

#[test]
fn an_extension_is_what_follows_the_last_dot_of_the_name() {
    let ext = |s: &str| extension(&s.chars().collect::<Vec<char>>()).map(|v| v.into_iter().collect::<String>());
    assert_eq!(ext("/tmp/a.tar.gz"), Some("gz".to_string()));
    assert_eq!(ext("/tmp/.bashrc"), None);
    assert_eq!(ext("/tmp/Makefile"), None);
}

#[test]
fn common_editor_keys_are_encoded_for_a_pty() {
    assert_eq!(key_bytes(Key::new(KeyCode::Char('x'), Mods::none()), false), b"x");
    assert_eq!(key_bytes(Key::new(KeyCode::Char('c'), Mods::ctrl()), false), b"\x03");
    assert_eq!(key_bytes(Key::new(KeyCode::Up, Mods::none()), true), b"\x1bOA");
    assert_eq!(key_bytes(Key::new(KeyCode::Up, Mods::none()), false), b"\x1b[A");
    assert_eq!(key_bytes(Key::new(KeyCode::Enter, Mods::none()), false), b"\r");
    assert_eq!(key_bytes(Key::new(KeyCode::Char('\u{e9}'), Mods::none()), false), "\u{e9}".as_bytes());
}

#[test]
fn the_editor_screen_keeps_a_column_off_each_side() {
    assert_eq!(content_rect(Rect::new(0, 2, 40, 10)), Rect::new(1, 2, 38, 10));
    assert_eq!(content_rect(Rect::new(0, 2, 1, 10)), Rect::new(1, 2, 0, 10));
}

#[test]
fn a_paste_is_bracketed_only_when_the_editor_asked() {
    assert_eq!(paste_bytes("ab", false), b"ab".to_vec());
    assert_eq!(paste_bytes("ab", true), b"\x1b[200~ab\x1b[201~".to_vec());
    assert_eq!(paste_bytes("", true), b"\x1b[200~\x1b[201~".to_vec());
}
