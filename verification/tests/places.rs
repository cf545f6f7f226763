use starfold_ui::geometry::Rect;
use starfold_ui::keys::{Key, KeyCode};
use starfold_ui::places::{inner, place_details, rect, LocationInfo, PlaceAction, PlaceGroup, PlaceItem, Places};

fn key(code: KeyCode) -> Key {
    Key::plain(code)
}

fn item(group: PlaceGroup, name: &str, path: &str) -> PlaceItem {
    PlaceItem { group, name: name.into(), path: path.into(), unmount_source: None, info: None }
}

fn device(name: &str, path: &str, source: &str) -> PlaceItem {
    PlaceItem {
        unmount_source: Some(source.into()),
        info: Some(LocationInfo {
            source: source.into(),
            fs_type: "exfat".into(),
            label: Some(name.into()),
            uuid: Some("A1B2-C3D4".into()),
            model: Some("Portable SSD".into()),
            serial: Some("XYZ123".into()),
            transport: Some("usb".into()),
            capacity: Some(1_000_000_000_000),
            available: Some(600_000_000_000),
        }),
        ..item(PlaceGroup::Devices, name, path)
    }
}

fn sample() -> Places {
    Places::new(vec![
        item(PlaceGroup::Bookmarks, "Projects", "/home/user/projects"),
        item(PlaceGroup::Bookmarks, "Writing", "/home/user/documents"),
        device("Camera", "/run/media/user/CAMERA", "/dev/sdb1"),
        item(PlaceGroup::Volumes, "Scratch", "/mnt/scratch"),
        item(PlaceGroup::Network, "Office", "/mnt/office"),
        item(PlaceGroup::Standard, "Home", "/home/user"),
        item(PlaceGroup::Standard, "Root", "/"),
    ])
}

#[test]
fn search_matches_path_and_groups_stay_ordered() {
    let mut places = Places::new(vec![
        item(PlaceGroup::Network, "Server", "/mnt/work"),
        item(PlaceGroup::Bookmarks, "Working", "/home/me/work"),
    ]);
    for c in "work".chars() {
        places.handle(key(KeyCode::Char(c)));
    }
    assert_eq!(places.filtered_items(), vec![1, 0]);
    assert_eq!(places.handle(key(KeyCode::Enter)), PlaceAction::Open("/home/me/work".into()));
    places.handle(key(KeyCode::Down));
    assert_eq!(places.handle(key(KeyCode::Enter)), PlaceAction::Open("/mnt/work".into()));
}

#[test]
fn search_ignores_case_and_drops_what_does_not_match() {
    let mut places = sample();
    for c in "OFFICE".chars() {
        places.handle(key(KeyCode::Char(c)));
    }
    assert_eq!(places.filtered_items(), vec![4]);
    assert_eq!(places.selected_item(), Some(4));
}

#[test]
fn removing_a_bookmark_needs_confirmation() {
    let mut places = Places::new(vec![item(PlaceGroup::Bookmarks, "Home", "/home/me")]);
    assert_eq!(places.handle(key(KeyCode::Delete)), PlaceAction::Consumed);
    assert_eq!(places.handle(key(KeyCode::Char('n'))), PlaceAction::Consumed);
    assert_eq!(places.handle(key(KeyCode::Delete)), PlaceAction::Consumed);
    assert_eq!(places.handle(key(KeyCode::Char('y'))), PlaceAction::RemoveBookmark("/home/me".into()));
}

#[test]
fn removal_prompt_clicks_match_the_visible_labels() {
    let mut places = Places::new(vec![item(PlaceGroup::Bookmarks, "Home", "/home/me")]);
    let area = Rect::new(0, 0, 60, 21);
    let inner = inner(rect(area));
    let y = inner.y + 2;
    places.handle(key(KeyCode::Delete));
    assert_eq!(places.click(inner.x + 8, y, area), PlaceAction::Consumed);
    assert_eq!(places.click(inner.x + 6, y, area), PlaceAction::RemoveBookmark("/home/me".into()));

    places.handle(key(KeyCode::Delete));
    assert_eq!(places.click(inner.x + 16, y, area), PlaceAction::Consumed);
    assert_eq!(places.handle(key(KeyCode::Enter)), PlaceAction::Open("/home/me".into()));
}

#[test]
fn bookmark_editor_rejects_blank_names() {
    let mut places = Places::new(Vec::new());
    places.begin_bookmark("/tmp".into(), " ".into());
    assert_eq!(places.handle(key(KeyCode::Enter)), PlaceAction::Consumed);
    places.handle(key(KeyCode::Backspace));
    places.handle(key(KeyCode::Char('X')));
    assert_eq!(
        places.handle(key(KeyCode::Enter)),
        PlaceAction::SaveBookmark { path: "/tmp".into(), name: "X".into() }
    );
}

#[test]
fn draw_and_click_use_the_same_rows_at_the_minimum_window_size() {
    let mut places = Places::new(vec![
        item(PlaceGroup::Network, "Office", "/mnt/office"),
        item(PlaceGroup::Bookmarks, "Projects", "/home/me/projects"),
    ]);
    let area = Rect::new(0, 0, 60, 21);
    let inner = inner(rect(area));
    let rows = Places::list_rect(inner);
    assert_eq!(places.click(rows.x + 3, rows.y + 1, area), PlaceAction::Open("/home/me/projects".into()));
    assert_eq!(places.click(rows.x + 3, rows.y + 3, area), PlaceAction::Open("/mnt/office".into()));
}

#[test]
fn mount_entries_cannot_be_renamed_or_removed() {
    let mut places = Places::new(vec![device("USB", "/media/usb", "/dev/sdb1")]);
    assert_eq!(places.handle(key(KeyCode::F(2))), PlaceAction::Consumed);
    assert_eq!(places.handle(key(KeyCode::Delete)), PlaceAction::Consumed);
    assert_eq!(places.handle(key(KeyCode::Enter)), PlaceAction::Open("/media/usb".into()));
}

#[test]
fn a_bookmark_renames_to_a_trimmed_name() {
    let mut places = Places::new(vec![item(PlaceGroup::Bookmarks, "Home", "/home/me")]);
    assert_eq!(places.handle(key(KeyCode::F(2))), PlaceAction::Consumed);
    places.handle(key(KeyCode::Char(' ')));
    places.handle(key(KeyCode::Char('2')));
    assert_eq!(
        places.handle(key(KeyCode::Enter)),
        PlaceAction::RenameBookmark { path: "/home/me".into(), name: "Home 2".into() }
    );
}

#[test]
fn unmount_requires_a_local_device_and_confirmation() {
    let mut network = Places::new(vec![item(PlaceGroup::Network, "Share", "/mnt/share")]);
    assert_eq!(network.handle(key(KeyCode::F(6))), PlaceAction::Consumed);
    let mut places = Places::new(vec![device("USB", "/media/usb", "/dev/sdb1")]);
    places.handle(key(KeyCode::F(6)));
    assert_eq!(places.handle(key(KeyCode::Char('n'))), PlaceAction::Consumed);
    assert_eq!(places.handle(key(KeyCode::F(6))), PlaceAction::Consumed);
    assert_eq!(
        places.handle(key(KeyCode::Char('y'))),
        PlaceAction::Unmount { path: "/media/usb".into(), source: "/dev/sdb1".into() }
    );
}

#[test]
fn unmount_footer_and_confirmation_clicks_match_the_labels() {
    let mut places = Places::new(vec![device("USB", "/media/usb", "/dev/sdb1")]);
    let area = Rect::new(0, 0, 60, 21);
    let inner = inner(rect(area));
    let list = Places::list_rect(inner);
    assert_eq!(places.click(list.x + list.width - 1, list.y + 1, area), PlaceAction::Consumed);
    assert_eq!(places.click(inner.x + 10, inner.y + 2, area), PlaceAction::Consumed);
    assert_eq!(places.click(inner.x + 15, inner.y + 2, area), PlaceAction::Consumed);
    assert_eq!(places.click(inner.x + 39, inner.y + inner.height - 1, area), PlaceAction::Consumed);
    assert_eq!(places.click(inner.x + 10, inner.y + 2, area), PlaceAction::Consumed);
    assert_eq!(
        places.click(inner.x + 8, inner.y + 2, area),
        PlaceAction::Unmount { path: "/media/usb".into(), source: "/dev/sdb1".into() }
    );
}

#[test]
fn escape_closes_and_ctrl_c_quits() {
    let mut places = sample();
    assert_eq!(places.handle(key(KeyCode::Esc)), PlaceAction::Close);
    let mut places = sample();
    assert_eq!(
        places.handle(Key::new(KeyCode::Char('c'), starfold_ui::keys::Mods::ctrl())),
        PlaceAction::Quit
    );
}

#[test]
fn opening_from_a_directory_on_a_drive_selects_that_drive() {
    let mut places = sample();
    places.select_containing_mount("/run/media/user/CAMERA/DCIM");
    assert_eq!(places.selected_item(), Some(2), "the Camera drive");
    places.select_containing_mount("/home/user/projects");
    assert_eq!(places.selected_item(), Some(2), "no drive holds it, so the selection stays");
}

#[test]
fn arbitrary_names_and_paths_click_without_panicking() {
    for (name, path, width, height) in [
        ("", "", 0u16, 0u16),
        ("\u{1f600}\u{301}", "a/\u{0}b", 79, 29),
        ("x", "y", 10, 3),
        ("long name that goes on", "/tmp/a/b/c/d", 60, 21),
    ] {
        let mut places = Places::new(vec![item(PlaceGroup::Bookmarks, name, &format!("/tmp/{path}"))]);
        let area = Rect::new(0, 0, width, height);
        for y in 0..height {
            let _ = places.click(width / 2, y, area);
        }
    }
}

#[test]
fn a_fresh_picker_over_one_bookmark_shows_its_heading_and_the_bookmark() {
    let p = Places::new(vec![item(PlaceGroup::Bookmarks, "Projects", "/home/user/projects")]);
    assert_eq!(p.rows().len(), 2);
}

#[test]
fn the_selected_drive_shows_its_details_in_order() {
    let d = device("Camera", "/run/media/user/CAMERA", "/dev/sdb1");
    let lines = place_details(Some(&d));
    let got: Vec<(&str, &str)> = lines.iter().map(|(l, v)| (l.as_str(), v.as_str())).collect();
    assert_eq!(
        got,
        vec![
            ("SELECTED PLACE", "Camera"),
            ("Label", "Camera"),
            ("Model", "Portable SSD"),
            ("Serial", "XYZ123"),
            ("UUID", "A1B2-C3D4"),
            ("Connection", "USB"),
            ("Device", "/dev/sdb1"),
            ("Filesystem", "exfat"),
            ("Capacity", "1.0 TB"),
            ("Available", "600.0 GB"),
            ("Mounted at", "/run/media/user/CAMERA"),
        ]
    );
}

#[test]
fn a_place_without_drive_details_shows_its_name_and_path() {
    let b = item(PlaceGroup::Bookmarks, "Projects", "/home/user/projects");
    let lines = place_details(Some(&b));
    assert_eq!(lines.len(), 2);
    assert_eq!(lines[1], ("Mounted at".to_string(), "/home/user/projects".to_string()));
}

#[test]
fn nothing_selected_invites_a_choice() {
    let lines = place_details(None);
    assert_eq!(lines, vec![("SELECTED PLACE".to_string(), "Choose a drive to inspect".to_string())]);
}

#[test]
fn the_picture_draws_each_row_where_a_click_lands_on_it() {
    let mut p = sample();
    let area = Rect::new(0, 0, 120, 40);
    let pic = p.picture(area).unwrap();
    assert_eq!(pic.frame, rect(area));
    let list = Places::list_rect(pic.inner);
    assert_eq!(pic.rows[0].y, list.y);
    assert_eq!(pic.rows[0].row, starfold_ui::places::ListRow::Heading(PlaceGroup::Bookmarks));
    assert!(pic.rows[1].selected);
    let marker: String = pic.rows[1].cells[0].1.iter().collect();
    assert_eq!(marker, "> ");
    let name: String = pic.rows[1].cells[1].1.iter().collect();
    assert!(name.starts_with("Projects"));
    assert!(!pic.rows[2].selected);
    let y = pic.rows[2].y;
    let a = p.click(list.x + 3, y, area);
    assert_eq!(a, PlaceAction::Open("/home/user/documents".to_string()));
}

#[test]
fn the_picture_words_the_status_and_shows_a_drive_row() {
    let mut p = sample();
    let pic = p.picture(Rect::new(0, 0, 120, 40)).unwrap();
    let texts: Vec<String> = pic.strokes.iter().map(|s| s.text.iter().collect()).collect();
    assert_eq!(texts[0], "Search:");
    assert_eq!(texts[1], "Type to search names and paths");
    assert!(pic.detail.is_some());
    let drive = pic.rows.iter().find(|r| r.cells.len() == 5).unwrap();
    let cap: String = drive.cells[2].1.iter().collect();
    assert_eq!(cap, "1.0 TB");
    let unmount: String = drive.cells[4].1.iter().collect();
    assert_eq!(unmount, "[unmount]");
    assert!(Places::new(Vec::new()).picture(Rect::new(0, 0, 10, 3)).is_none());
}
