use base64::Engine;
use starfold_ui::dnd::{
    platform_uuid,
    allows, data_frames, escape, final_drop_operation, item_meta, machine_id_of, Message, RAW_CHUNK,
};
use starfold_ui::ops::{DeleteHow, OpKind, OpStatus};
use starfold_ui::remote::{file_name, marks_remote, receive_uri_chunk, safe_name, split_names, uri_outcome, DropError, Effect, Remote, UriOutcome, UriStep};
use starfold_ui::uri::{file_uri, parse_file_uri, percent_decode, uri_list};

#[test]
fn skipped_move_keeps_the_desktop_source() {
    assert_eq!(final_drop_operation(Some((OpStatus::Done, 0)), OpKind::Move), Some(2));
    assert_eq!(final_drop_operation(Some((OpStatus::Done, 1)), OpKind::Move), Some(1));
    assert_eq!(final_drop_operation(Some((OpStatus::Failed, 0)), OpKind::Move), Some(0));
    assert_eq!(final_drop_operation(Some((OpStatus::Running, 0)), OpKind::Move), None);
}

#[test]
fn a_copy_that_finished_reports_a_copy() {
    assert_eq!(final_drop_operation(Some((OpStatus::Done, 0)), OpKind::Copy), Some(1));
    assert_eq!(final_drop_operation(None, OpKind::Copy), Some(0));
    assert!(allows(1, OpKind::Copy));
    assert!(!allows(1, OpKind::Move));
    assert!(allows(3, OpKind::Move));
    assert!(allows(0, OpKind::Delete(DeleteHow::Trash)));
}

#[test]
fn osc_fields_and_payload() {
    let m = Message::parse("t=M:x=3:y=4:o=3;text/uri-list").unwrap();
    assert_eq!(m.get("t"), Some("M".to_string()));
    assert_eq!(m.number("x"), Some(3));
    assert_eq!(m.payload, "text/uri-list");
    assert!(Message::parse("broken").is_none());
    assert!(!Message::parse("t=r:m=0;YQ").unwrap().end_of_data());
    assert!(Message::parse("m=0;").unwrap().end_of_data());
}

#[test]
fn uri_round_trip_keeps_special_and_non_utf8_names() {
    let path: &[u8] = b"/tmp/a #\xff.txt";
    let uri = file_uri(path).unwrap();
    assert_eq!(uri, "file:///tmp/a%20%23%FF.txt");
    assert_eq!(parse_file_uri(&uri), Some(path.to_vec()));
}

#[test]
fn uri_round_trip_for_many_unix_names() {
    for seed in 0u32..64 {
        let mut name: Vec<u8> = (0..(1 + seed % 40)).map(|i| (1 + (seed * 37 + i * 11) % 255) as u8).collect();
        name.retain(|b| *b != b'/');
        if name.is_empty() {
            continue;
        }
        let mut path = b"/tmp/".to_vec();
        path.extend_from_slice(&name);
        let uri = file_uri(&path).unwrap();
        assert_eq!(parse_file_uri(&uri), Some(path));
    }
}

#[test]
fn a_relative_path_has_no_uri_and_a_list_skips_comments() {
    assert_eq!(file_uri(b"relative"), None);
    assert_eq!(parse_file_uri("http://x/y"), None);
    assert_eq!(percent_decode(b"a%41%4", 0), b"aA%4".to_vec());
    assert_eq!(
        uri_list(b"# comment\r\nfile:///a\r\nfile:///b%20c\r\n"),
        Some(vec![b"/a".to_vec(), b"/b c".to_vec()])
    );
    assert_eq!(uri_list(b"# only a comment\n"), None);
}

#[test]
fn accepts_unpadded_data_and_rejects_duplicate_remote_names() {
    assert_eq!(Message::parse("t=r;YQ").unwrap().data(), Some(b"a".to_vec()));
    assert!(split_names(b"safe\0safe\0").is_err());
    assert!(split_names(b"..\0").is_err());
}

#[test]
fn remote_names_split_on_nul_and_refuse_each_unsafe_kind() {
    assert_eq!(split_names(b"a\0b\0"), Ok(vec![b"a".to_vec(), b"b".to_vec()]));
    assert_eq!(split_names(b"safe\0safe\0"), Err(DropError::BadListing));
    assert_eq!(split_names(b"..\0"), Err(DropError::BadListing));
    assert!(safe_name(b"ok"));
    assert!(!safe_name(b"a/b"));
    assert!(!safe_name(b"."));
    assert_eq!(file_name(b"/elsewhere/folder/"), Some(b"folder".to_vec()));
}

#[test]
fn an_escape_frames_its_metadata_and_payload() {
    assert_eq!(escape("t=a", None), "\x1b]72;t=a\x1b\\");
    assert_eq!(escape("t=r", Some("YQ")), "\x1b]72;t=r;YQ\x1b\\");
}

#[test]
fn data_is_sent_in_chunks_and_ended_by_an_empty_message() {
    let bytes = vec![b'a'; RAW_CHUNK + 1];
    let frames = data_frames("t=k:x=1", &bytes);
    assert_eq!(frames.len(), 3);
    assert_eq!(frames[0].meta, "t=k:x=1:m=1");
    let first = base64::engine::general_purpose::STANDARD_NO_PAD.encode(&bytes[..RAW_CHUNK]);
    assert_eq!(frames[0].payload.as_deref(), Some(first.as_str()));
    assert_eq!(frames[1].payload.as_deref(), Some("YQ"));
    assert_eq!(frames[2].meta, "t=k:x=1:m=0");
    assert_eq!(frames[2].payload.as_deref(), Some(""));
}

#[test]
fn an_item_is_numbered_under_its_root_and_directory() {
    assert_eq!(item_meta(1, None), "t=k:x=1:i=1");
    assert_eq!(item_meta(2, Some((3, 4))), "t=k:x=2:i=1:Y=3:y=4");
}

#[test]
fn the_machine_id_is_a_keyed_digest_of_the_os_id() {
    let id = machine_id_of("0123456789abcdef");
    assert_eq!(id, "1:280d9d39a6e544c5690704c980ef1bc9758fa6efccc06b16b2cfdd9fee192cfa");
    assert_ne!(machine_id_of("another"), id);
}

fn sent(effects: &[Effect]) -> Vec<String> {
    effects
        .iter()
        .filter_map(|e| match e {
            Effect::Send(s) => Some(s.clone()),
            _ => None,
        })
        .collect()
}

#[test]
fn remote_directory_chunks_stage_a_tree_without_escaping_destination() {
    let stage = b"/dest".to_vec();
    let mut remote = Remote::new(stage.clone(), &vec![b"/elsewhere/folder".to_vec()], 1).unwrap();
    assert_eq!(remote.roots, vec![b"/dest/folder".to_vec()]);

    let r = remote.request_next();
    assert_eq!(r.outcome, Ok(false));
    assert_eq!(sent(&r.effects).len(), 1);

    let names = base64::engine::general_purpose::STANDARD.encode(b"child\0");
    let first = Message::parse(&format!("t=r:x=1:y=1:X=2:m=0;{names}")).unwrap();
    let r = remote.receive(&first, false);
    assert_eq!(r.outcome, Ok(false));
    assert!(r.effects.iter().any(|e| matches!(e, Effect::CreateDir(p) if p == b"/dest/folder")));

    let r = remote.receive(&Message::parse("m=0;").unwrap(), false);
    assert_eq!(r.outcome, Ok(false));
    assert_eq!(sent(&r.effects).len(), 1, "the child is asked for next");

    let data = base64::engine::general_purpose::STANDARD.encode(b"content");
    let child = Message::parse(&format!("t=r:Y=2:x=1:m=0;{data}")).unwrap();
    let r = remote.receive(&child, false);
    assert_eq!(r.outcome, Ok(false));
    assert!(r.effects.iter().any(|e| matches!(e, Effect::CreateFile(p) if p == b"/dest/folder/child")));
    assert!(r.effects.iter().any(|e| matches!(e, Effect::Write(d) if d == b"content")));

    let r = remote.receive(&Message::parse("m=0;").unwrap(), false);
    assert_eq!(r.outcome, Ok(true));
    assert!(remote.roots[0].starts_with(&stage));
}

#[test]
fn a_cancelled_or_unasked_message_ends_the_drop() {
    let mut remote = Remote::new(b"/dest".to_vec(), &vec![b"/a/f".to_vec()], 1).unwrap();
    let m = Message::parse("t=r:x=1:y=1:m=0;YQ").unwrap();
    assert_eq!(remote.receive(&m, false).outcome, Err(DropError::Unsolicited));
    remote.request_next();
    assert_eq!(remote.receive(&m, true).outcome, Err(DropError::Cancelled));
}

#[test]
fn a_drop_refuses_two_sources_with_one_name() {
    let sources = vec![b"/a/same".to_vec(), b"/b/same".to_vec()];
    assert!(matches!(Remote::new(b"/dest".to_vec(), &sources, 1), Err(DropError::DuplicateName)));
    assert!(matches!(Remote::new(b"/dest".to_vec(), &vec![b"/".to_vec()], 1), Err(DropError::NoFileName)));
}

#[test]
fn a_file_uri_names_its_path_again() {
    for path in [&b"/"[..], b"/a", b"/tmp/%41 #?", b"/\x01\x7f\x80\xff/x"] {
        let uri = file_uri(path).unwrap();
        assert!(uri.is_ascii(), "{uri:?}");
        assert_eq!(parse_file_uri(&uri), Some(path.to_vec()));
    }
    assert_eq!(parse_file_uri("file://host/etc/x"), Some(b"/etc/x".to_vec()));
    assert_eq!(parse_file_uri("file:///a%00b"), None, "a NUL byte is refused");
}

#[test]
fn a_dropped_uri_list_arrives_in_chunks() {
    let list = b"file:///tmp/a%20b\r\nfile:///tmp/c\r\n";
    let (head, tail) = list.split_at(10);
    let enc = |b: &[u8]| base64::engine::general_purpose::STANDARD.encode(b);
    let mut got = Vec::new();
    let m1 = Message::parse(&format!("t=r:m=1;{}", enc(head))).unwrap();
    assert_eq!(receive_uri_chunk(&mut got, &m1), UriStep::More);
    let m2 = Message::parse(&format!("t=r:m=1;{}", enc(tail))).unwrap();
    assert_eq!(receive_uri_chunk(&mut got, &m2), UriStep::More);
    let end = Message::parse("t=r:m=0;").unwrap();
    assert_eq!(receive_uri_chunk(&mut got, &end), UriStep::Done(vec![b"/tmp/a b".to_vec(), b"/tmp/c".to_vec()]));

    let mut bad = Vec::new();
    assert_eq!(receive_uri_chunk(&mut bad, &Message::parse("t=r;!!!").unwrap()), UriStep::Failed);
    let mut empty = Vec::new();
    assert_eq!(receive_uri_chunk(&mut empty, &end), UriStep::Failed, "a list naming nothing");
    let mut full = vec![0u8; 8 * 1024 * 1024];
    assert_eq!(receive_uri_chunk(&mut full, &Message::parse("t=r;YQ").unwrap()), UriStep::Failed);
    assert_eq!(full.len(), 8 * 1024 * 1024);
}

#[test]
fn a_complete_uri_list_is_imported_when_remote_and_queued_when_local() {
    assert!(marks_remote(&Message::parse("t=r:X=1;YQ").unwrap()));
    assert!(!marks_remote(&Message::parse("t=r:X=2;YQ").unwrap()));
    assert!(!marks_remote(&Message::parse("t=r;YQ").unwrap()));
    assert_eq!(uri_outcome(true, Some(2), None), UriOutcome::Import { mime_index: 2 });
    assert_eq!(uri_outcome(true, None, Some(OpKind::Move)), UriOutcome::Failed);
    assert_eq!(uri_outcome(false, None, Some(OpKind::Move)), UriOutcome::Queue { result: OpKind::Move });
    assert_eq!(uri_outcome(false, Some(0), None), UriOutcome::Queue { result: OpKind::Copy });
}

#[test]
fn data_frames_carry_unpadded_standard_base64() {
    let frames = data_frames("t=k", b"abcd\xfb");
    assert_eq!(frames[0].payload.as_deref(), Some("YWJjZPs"));
}

#[test]
fn the_platform_uuid_is_read_from_its_line() {
    let listing = "+-o Mac  <class IOPlatformExpertDevice>\n    {\n      \"IOPlatformSerialNumber\" = \"C02\"\n      \"IOPlatformUUID\" = \"1234-ABCD\"\n    }\n";
    assert_eq!(platform_uuid(listing).as_deref(), Some("1234-ABCD"));
    assert_eq!(platform_uuid("nothing here\n"), None);
    assert_eq!(platform_uuid("IOPlatformUUID without quotes\n\"IOPlatformUUID\" = \"X\""), Some("X".to_string()));
}
