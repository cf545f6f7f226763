use starfold_ui::editor::EntryKind;
use starfold_ui::labels::Listed;
use starfold_ui::panels::preview::Preview;
use starfold_ui::refresh::{carried_scroll, refresh_view, CoreSnapshot, EntrySnap, FrameSnap, PaneSnap};

fn frame(dir: &str, rows: usize) -> FrameSnap {
    FrameSnap { dir: dir.to_string(), rows, cursor: 1, filter: String::new(), loading: false }
}

fn snap(version: u64, preview_for: &str) -> CoreSnapshot {
    CoreSnapshot {
        version,
        home: "/home/me".to_string(),
        frames: vec![frame("/", 12), frame("/home/me", 4), frame("/home/me/src", 2)],
        entries: vec![EntrySnap {
            entry: Listed {
                path: "/home/me/src/main.rs".to_string(),
                display: "main.rs".to_string(),
                kind: EntryKind::File,
                link_kind: None,
                executable: false,
                hidden: false,
                len: 1200,
                ext: "rs".to_string(),
            },
            marked: false,
            time: None,
        }],
        any_marked: false,
        error: None,
        truncated: false,
        dir_stats: Some((1, 0, 1200)),
        preview: Some((preview_for.to_string(), Preview::Empty)),
        cursor_path: Some("/home/me/src/main.rs".to_string()),
        marked: String::new(),
        ops: Vec::new(),
        op_ids: Vec::new(),
        running_bar: None,
        has_forward: false,
        trash_available: true,
        show_hidden: false,
        commander: false,
        commander_pane: 0,
        panes: Vec::new(),
    }
}

#[test]
fn a_snapshot_already_seen_changes_nothing() {
    assert!(refresh_view(snap(5, "/home/me/src/main.rs"), 5).is_none());
    assert!(refresh_view(snap(6, "/home/me/src/main.rs"), 5).is_some());
}

#[test]
fn the_view_names_the_parents_and_the_open_level() {
    let v = refresh_view(snap(6, "/home/me/src/main.rs"), 5).unwrap().view;
    let names: Vec<&str> = v.crumbs.iter().map(|c| c.name.as_str()).collect();
    assert_eq!(names, vec!["//", "~"]);
    assert_eq!(v.crumbs[1].count, Some(4));
    assert_eq!(v.rule, "src/ \u{2500}\u{2500} 1 files \u{b7} 0 dirs \u{b7} 1.2 KB");
    assert_eq!(v.location, "~/src");
    assert_eq!(v.rows.len(), 1);
    assert_eq!(v.rows[0].name, "main.rs");
    assert_eq!(v.cursor, 1);
    assert_eq!(v.preview_name.as_deref(), Some("main.rs"));
}

#[test]
fn a_preview_for_another_entry_is_not_shown() {
    let v = refresh_view(snap(6, "/home/me/src/other.rs"), 5).unwrap().view;
    assert!(v.preview_name.is_none());
    assert!(v.preview.is_none());
}

#[test]
fn the_preview_shown_is_the_cores_preview_for_the_cursor() {
    let mut s = snap(6, "/home/me/src/main.rs");
    s.preview = Some(("/home/me/src/main.rs".to_string(), Preview::Error("unreadable".to_string())));
    let v = refresh_view(s, 5).unwrap().view;
    assert!(matches!(v.preview, Some(Preview::Error(ref e)) if e == "unreadable"));
}

#[test]
fn commander_panes_are_rebuilt_from_their_own_stacks() {
    let mut s = snap(6, "/home/me/src/main.rs");
    s.commander = true;
    s.commander_pane = 1;
    s.panes = vec![PaneSnap {
        dir: "/tmp".to_string(),
        frame_id: 9,
        entries: Vec::new(),
        any_marked: false,
        cursor: 0,
        filter: "x".to_string(),
        loading: true,
        error: Some("gone".to_string()),
        truncated: false,
    }];
    let r = refresh_view(s, 5).unwrap();
    assert!(r.commander);
    assert_eq!(r.active_pane, 1);
    assert_eq!(r.panes.len(), 1);
    assert_eq!(r.panes[0].key, (1, 9));
    assert_eq!(r.panes[0].dir, "/tmp");
    assert_eq!(r.panes[0].error.as_deref(), Some("gone"));
    assert!(r.panes[0].loading);
}

#[test]
fn a_documents_scroll_follows_its_pages() {
    let old = vec![(1u32, 10usize), (2, 10), (3, 10)];
    let new = vec![(3u32, 10usize), (4, 10)];
    assert_eq!(carried_scroll(25, &old, &new), 5);
    assert_eq!(carried_scroll(5, &old, &new), 0);
    assert_eq!(carried_scroll(5, &new, &old), 25);
    assert_eq!(carried_scroll(5, &old, &old), 5);
    assert_eq!(carried_scroll(5, &Vec::new(), &old), 5);
}
