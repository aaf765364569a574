//! Session-level scenarios: one simulated connection per test, with
//! the filesystem facts a real embedding would gather.

use fileserver::session::{Entry, SessState, Session, Step};

fn new_session() -> Session {
    Session::new(String::from("data"))
}

#[test]
fn list_empty_root_header_only() {
    let mut s = new_session();
    let step = s.on_line("list .");
    match step {
        Step::QueryDir { path } => {
            assert_eq!(path.base, "data");
            assert!(path.segs.is_empty());
        }
        _ => panic!("list must query a directory"),
    }
    let entries: Vec<Entry> = Vec::new();
    s.list_response(true, Some(&entries));
    let out = s.flush();
    assert_eq!(out, "Here is the list nya:\n");
}

#[test]
fn list_entries_kinds_and_sizes() {
    let mut s = new_session();
    s.on_line("list");
    let entries = vec![
        Entry { is_dir: true, size: 4096, name: String::from("sub") },
        Entry { is_dir: false, size: 5, name: String::from("foo.txt") },
        Entry { is_dir: false, size: 0, name: String::from("empty.bin") },
    ];
    s.list_response(true, Some(&entries));
    let out = s.flush();
    assert_eq!(
        out,
        "Here is the list nya:\nd 0 sub\nf 5 foo.txt\nf 0 empty.bin\n"
    );
}

#[test]
fn list_missing_target_single_error_line() {
    let mut s = new_session();
    s.on_line("list nowhere");
    s.list_response(false, None);
    let out = s.flush();
    assert_eq!(out, "data/nowhere not a dir\n");
}

#[test]
fn list_unreadable_directory() {
    let mut s = new_session();
    s.on_line("list .");
    s.list_response(true, None);
    let out = s.flush();
    assert_eq!(out, "Here is the list nya:\nERR read dir failed\n");
}

#[test]
fn put_then_get_round_trip() {
    let mut s = new_session();
    // A stand-in for the root directory: at most one stored file.
    let mut stored: Option<(Vec<String>, Vec<u8>)> = None;
    let payload = b"hello".to_vec();

    let step = s.on_line("put foo.txt 5");
    let put_path = match step {
        Step::ReadPayload { path, size } => {
            assert_eq!(size, 5);
            let taken: Vec<u8> = payload[..size as usize].to_vec();
            stored = Some((path.segs.clone(), taken));
            path.segs
        }
        _ => panic!("put must ask for the payload"),
    };
    s.put_response(true);
    assert_eq!(s.flush(), "Update successful nya~\n");

    let step = s.on_line("get foo.txt");
    match step {
        Step::QueryFile { path } => {
            assert_eq!(path.segs, put_path);
            let (seg, bytes) = stored.as_ref().unwrap();
            assert_eq!(&path.segs, seg);
            let stream = s.get_response(true, true);
            assert!(stream);
            assert_eq!(bytes, &payload);
        }
        _ => panic!("get must query a file"),
    }
    assert_eq!(s.flush(), "Get successful nya~\n");
}

#[test]
fn put_frames_exact_byte_count() {
    let mut s = new_session();
    // One byte.
    match s.on_line("put a 1") {
        Step::ReadPayload { size, .. } => assert_eq!(size, 1),
        _ => panic!("positive size must be accepted"),
    }
    s.put_response(true);
    s.flush();
    // A large count, still framed exactly.
    match s.on_line("put big.bin 1048576") {
        Step::ReadPayload { size, .. } => assert_eq!(size, 1048576),
        _ => panic!("large size must be accepted"),
    }
    s.put_response(true);
    s.flush();
    // The payload never reaches the session, so binary content cannot
    // change the count it asked for.
}

#[test]
fn put_zero_size_rejected_no_payload() {
    let mut s = new_session();
    match s.on_line("put foo.txt 0") {
        Step::ReadLine => {}
        _ => panic!("zero size must not ask for payload bytes"),
    }
    assert_eq!(s.flush(), "ERR bad size\n");
    // The session is back at a line boundary: the next line parses.
    match s.on_line("put foo.txt 3") {
        Step::ReadPayload { size, .. } => assert_eq!(size, 3),
        _ => panic!("the next command must be read correctly"),
    }
}

#[test]
fn put_bad_size_text_rejected() {
    let mut s = new_session();
    match s.on_line("put foo.txt five") {
        Step::ReadLine => {}
        _ => panic!("unparsable size must not ask for payload bytes"),
    }
    assert_eq!(s.flush(), "ERR bad size\n");

    match s.on_line("put foo.txt") {
        Step::ReadLine => {}
        _ => panic!("a missing size must not ask for payload bytes"),
    }
    assert_eq!(s.flush(), "ERR bad size\n");

    // splitn-style parsing: trailing fields make the count unparsable.
    match s.on_line("put foo.txt 5 extra") {
        Step::ReadLine => {}
        _ => panic!("a trailing field must spoil the size"),
    }
    assert_eq!(s.flush(), "ERR bad size\n");
}

#[test]
fn put_write_failure_reports_file_error() {
    let mut s = new_session();
    match s.on_line("put sub/file.bin 4") {
        Step::ReadPayload { path, size } => {
            assert_eq!(size, 4);
            assert_eq!(path.segs, vec!["sub".to_string(), "file.bin".to_string()]);
        }
        _ => panic!("put must ask for the payload"),
    }
    // The payload was consumed in full, but the disk write failed.
    s.put_response(false);
    assert_eq!(s.flush(), "ERR file error\n");
    // The stream stays at a line boundary: the next command parses.
    match s.on_line("list .") {
        Step::QueryDir { .. } => {}
        _ => panic!("the session must continue after a failed write"),
    }
}

#[test]
fn get_missing_file_one_error_line_no_payload() {
    let mut s = new_session();
    match s.on_line("get missing.txt") {
        Step::QueryFile { path } => {
            assert_eq!(path.base, "data");
            assert_eq!(path.segs, vec![String::from("missing.txt")]);
        }
        _ => panic!("get must query a file"),
    }
    let stream = s.get_response(false, false);
    assert!(!stream, "no payload bytes may be sent");
    assert_eq!(s.flush(), "no such file called data/missing.txt\n");
}

#[test]
fn get_unopenable_file_reports_file_error() {
    let mut s = new_session();
    s.on_line("get locked.bin");
    let stream = s.get_response(true, false);
    assert!(!stream);
    assert_eq!(s.flush(), "ERR file error\n");
}

#[test]
fn quit_farewell_and_session_ends() {
    let mut s = new_session();
    assert!(s.is_open());
    match s.on_line("quit") {
        Step::Close => {}
        _ => panic!("quit must close the session"),
    }
    assert_eq!(s.flush(), "Bye nya~\n");
    // The session is done: no further line is ever processed.
    assert!(!s.is_open());
    assert!(matches!(s.state, SessState::Done));
}

#[test]
fn unknown_verb_single_error_line() {
    let mut s = new_session();
    match s.on_line("frobnicate x y z") {
        Step::ReadLine => {}
        _ => panic!("an unknown verb must consume nothing further"),
    }
    assert_eq!(s.flush(), "ERR unknown cmd\n");
    // The session stays at a line boundary.
    match s.on_line("quit") {
        Step::Close => {}
        _ => panic!("the next command must still be dispatched"),
    }
}

#[test]
fn blank_line_skipped_silently() {
    let mut s = new_session();
    match s.on_line("") {
        Step::ReadLine => {}
        _ => panic!("a blank line is skipped"),
    }
    assert_eq!(s.flush(), "");
}

#[test]
fn help_usage_block() {
    let mut s = new_session();
    s.on_line("help");
    let out = s.flush();
    assert_eq!(
        out,
        "\nCommands:\n  list [path] - List files in directory\n  get path - Get file content\n  put path size - Put file content (size in bytes)\n  quit - Exit the server\n"
    );
}

#[test]
fn responses_flushed_per_command() {
    let mut s = new_session();
    s.on_line("nonsense");
    assert_eq!(s.flush(), "ERR unknown cmd\n");
    // Nothing pending afterwards.
    assert_eq!(s.flush(), "");
}
