use starfold_ui::dnd::{chunk_frame, data_frames, end_frame, item_meta};
use starfold_ui::offer::{bytes_le_exec, sort_names, typed_meta, OfferItem, OfferWalk};

/// A small tree standing in for the disk: a directory and what it holds.
enum Node {
    File(&'static [u8]),
    Dir(Vec<(&'static str, Node)>),
}

fn lookup<'a>(root: &'a (&'static str, Node), path: &[u8]) -> &'a Node {
    let text = std::str::from_utf8(path).unwrap();
    let mut parts = text.trim_start_matches('/').split('/');
    assert_eq!(parts.next(), Some(root.0));
    let mut node = &root.1;
    for part in parts {
        match node {
            Node::Dir(children) => node = &children.iter().find(|(n, _)| *n == part).unwrap().1,
            Node::File(_) => panic!("{part} under a file"),
        }
    }
    node
}

/// Every message a walk sends, as metadata, in order.
fn walk(roots: &[(&'static str, Node)], requests: &[usize]) -> Vec<String> {
    let sources: Vec<Vec<u8>> = roots.iter().map(|(n, _)| format!("/{n}").into_bytes()).collect();
    let mut w = OfferWalk::new();
    let mut out = Vec::new();
    for &index in requests {
        assert!(w.request(index, &sources));
        while let Some(item) = w.next() {
            let root = &roots[item.root - 1];
            match lookup(root, &item.path) {
                Node::File(bytes) => {
                    for f in data_frames(&item_meta(item.root, item.parent), bytes) {
                        out.push(f.meta);
                    }
                }
                Node::Dir(children) => {
                    let names: Vec<Vec<u8>> = children.iter().map(|(n, _)| n.as_bytes().to_vec()).collect();
                    let (meta, listing) = w.directory(&item, &names).unwrap();
                    for f in data_frames(&meta, &listing) {
                        out.push(f.meta);
                    }
                }
            }
        }
    }
    out
}

#[test]
fn an_exported_directory_is_breadth_first_and_ends_each_entry() {
    let tree = vec![(
        "folder",
        Node::Dir(vec![("nested", Node::Dir(vec![("second", Node::File(b"def"))])), ("first", Node::File(b"abc"))]),
    )];
    let messages = walk(&tree, &[1]);
    assert!(messages.first().unwrap().contains("X=2"));
    assert!(messages.iter().any(|m| m.contains("Y=2:y=1:m=1")), "{messages:?}");
    assert!(messages.iter().any(|m| m.contains("Y=2:y=2:X=3:m=1")), "{messages:?}");
    assert!(messages.iter().any(|m| m.contains("Y=3:y=1:m=1")), "{messages:?}");
    let first = messages.iter().position(|m| m.contains("Y=2:y=1")).unwrap();
    let second = messages.iter().position(|m| m.contains("Y=3:y=1")).unwrap();
    assert!(first < second, "a directory's entries go before its subdirectory's");
}

#[test]
fn separate_requests_get_distinct_directory_handles() {
    let tree = vec![("left", Node::Dir(Vec::new())), ("right", Node::Dir(Vec::new()))];
    let messages = walk(&tree, &[1, 2]);
    assert!(messages[0].contains("x=1") && messages[0].contains("X=2"), "{messages:?}");
    assert!(messages[1].contains("x=2") && messages[1].contains("X=3"), "{messages:?}");
}

#[test]
fn a_request_outside_the_drag_is_refused() {
    let sources = vec![b"/a".to_vec()];
    let mut w = OfferWalk::new();
    assert!(!w.request(0, &sources));
    assert!(!w.request(2, &sources));
    assert!(w.next().is_none());
    assert!(w.request(1, &sources));
    let item = w.next().unwrap();
    assert_eq!(item.path, b"/a".to_vec());
    assert_eq!(item.root, 1);
    assert_eq!(item.parent, None);
}

#[test]
fn a_listing_is_sorted_numbered_and_nul_ended() {
    let mut w = OfferWalk::new();
    let dir = OfferItem { path: b"/d".to_vec(), root: 1, parent: None };
    let names = vec![b"b".to_vec(), b"a".to_vec(), b"ab".to_vec()];
    let (meta, listing) = w.directory(&dir, &names).unwrap();
    assert_eq!(meta, "t=k:x=1:i=1:X=2");
    assert_eq!(listing, b"a\0ab\0b\0".to_vec());
    let kids: Vec<(Vec<u8>, Option<(i32, usize)>)> =
        std::iter::from_fn(|| w.next()).map(|i| (i.path, i.parent)).collect();
    assert_eq!(
        kids,
        vec![
            (b"/d/a".to_vec(), Some((2, 1))),
            (b"/d/ab".to_vec(), Some((2, 2))),
            (b"/d/b".to_vec(), Some((2, 3))),
        ]
    );
    assert_eq!(w.next_handle, 3);
}

#[test]
fn the_handles_run_out_rather_than_wrap() {
    let mut w = OfferWalk::new();
    w.next_handle = i32::MAX;
    let dir = OfferItem { path: b"/d".to_vec(), root: 1, parent: None };
    assert!(w.directory(&dir, &vec![b"x".to_vec()]).is_none());
    assert!(w.next().is_none());
}

#[test]
fn names_sort_byte_by_byte_with_a_prefix_first() {
    let sorted = sort_names(&vec![b"zeta".to_vec(), b"Alpha".to_vec(), b"al".to_vec(), b"alpha".to_vec(), vec![0xff]]);
    assert_eq!(sorted, vec![b"Alpha".to_vec(), b"al".to_vec(), b"alpha".to_vec(), b"zeta".to_vec(), vec![0xff]]);
    assert!(bytes_le_exec(b"", b"a"));
    assert!(!bytes_le_exec(b"b", b"a"));
}

#[test]
fn a_link_and_a_file_stream_under_their_metadata() {
    assert_eq!(typed_meta(1, Some((2, 3)), 1), "t=k:x=1:i=1:Y=2:y=3:X=1");
    let c = chunk_frame("t=k:x=1:i=1", b"hello");
    assert_eq!(c.meta, "t=k:x=1:i=1:m=1");
    assert_eq!(c.payload.as_deref(), Some("aGVsbG8"));
    let e = end_frame("t=k:x=1:i=1");
    assert_eq!(e.meta, "t=k:x=1:i=1:m=0");
    assert_eq!(e.payload.as_deref(), Some(""));
}
