//! Path resolution and text-helper checks.

use fileserver::resolve::{join_paths, path_display};
use fileserver::session::{Session, Step};
use fileserver::text::{parse_u64, u64_to_string};

#[test]
fn plain_path_resolves_under_base() {
    let p = join_paths("data", "a/b/c.txt");
    assert_eq!(p.base, "data");
    assert_eq!(p.segs, vec!["a".to_string(), "b".to_string(), "c.txt".to_string()]);
    assert_eq!(path_display(&p), "data/a/b/c.txt");
}

#[test]
fn dot_and_empty_components_skipped() {
    let p = join_paths("data", "./a//b/./");
    assert_eq!(p.segs, vec!["a".to_string(), "b".to_string()]);
}

#[test]
fn parent_reference_pops_one_segment() {
    let p = join_paths("data", "a/b/../c");
    assert_eq!(p.segs, vec!["a".to_string(), "c".to_string()]);
}

#[test]
fn escape_attempts_clamp_at_root() {
    // Any depth of parent references resolves to the root itself.
    for rel in ["..", "../..", "../../../../../..", "./../.."] {
        let p = join_paths("data", rel);
        assert!(p.segs.is_empty(), "{rel:?} must stay at the root");
        assert_eq!(path_display(&p), "data");
    }
    // A classic traversal string stays under the root.
    let p = join_paths("data", "../../../etc/passwd");
    assert_eq!(p.segs, vec!["etc".to_string(), "passwd".to_string()]);
    assert_eq!(path_display(&p), "data/etc/passwd");
}

#[test]
fn absolute_marker_discarded() {
    let p = join_paths("data", "/etc/passwd");
    assert_eq!(p.segs, vec!["etc".to_string(), "passwd".to_string()]);
}

#[test]
fn traversal_line_stays_under_root_end_to_end() {
    let mut s = Session::new(String::from("data"));
    match s.on_line("get ../../../etc/passwd") {
        Step::QueryFile { path } => {
            assert_eq!(path.base, "data");
            assert_eq!(path.segs, vec!["etc".to_string(), "passwd".to_string()]);
        }
        _ => panic!("get must query a file"),
    }
}

#[test]
fn parse_u64_accepts_decimal() {
    assert_eq!(parse_u64("0"), Some(0));
    assert_eq!(parse_u64("5"), Some(5));
    assert_eq!(parse_u64("005"), Some(5));
    assert_eq!(parse_u64("+17"), Some(17));
    assert_eq!(parse_u64("18446744073709551615"), Some(u64::MAX));
}

#[test]
fn parse_u64_rejects_junk_and_overflow() {
    assert_eq!(parse_u64(""), None);
    assert_eq!(parse_u64("+"), None);
    assert_eq!(parse_u64("-1"), None);
    assert_eq!(parse_u64("5 "), None);
    assert_eq!(parse_u64(" 5"), None);
    assert_eq!(parse_u64("5x"), None);
    assert_eq!(parse_u64("18446744073709551616"), None);
    assert_eq!(parse_u64("99999999999999999999999"), None);
}

#[test]
fn u64_renders_in_decimal() {
    assert_eq!(u64_to_string(0), "0");
    assert_eq!(u64_to_string(7), "7");
    assert_eq!(u64_to_string(42), "42");
    assert_eq!(u64_to_string(1048576), "1048576");
    assert_eq!(u64_to_string(u64::MAX), "18446744073709551615");
}

#[test]
fn list_default_path_is_current_directory() {
    let mut s = Session::new(String::from("data"));
    match s.on_line("list") {
        Step::QueryDir { path } => {
            assert_eq!(path.base, "data");
            assert!(path.segs.is_empty());
        }
        _ => panic!("list without an argument targets the root"),
    }
}
