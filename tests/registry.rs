use sgr::registry::collision_kind;
use sgr::{CollisionKind, RangeFault, Registry, Selector, SgrError};

fn registry(lines: &[&str]) -> Registry {
    Registry::new(lines.iter().map(|s| s.to_string()).collect())
}

fn lines(reg: &Registry) -> Vec<&str> {
    reg.lines.iter().map(|s| s.as_str()).collect()
}

#[test]
fn remove_second_line_then_list_all() {
    let mut reg = registry(&["/a/repo1", "/b/repo2", "/c/repo3"]);
    let sel = sgr::remove_selector("2").unwrap();
    assert_eq!(sel, Selector::Line(2));
    assert!(reg.remove_lines(sel).is_ok());
    assert_eq!(lines(&reg), vec!["/a/repo1", "/c/repo3"]);
    let rows = reg.list("all").unwrap();
    assert_eq!(rows, vec!["| 01 | /a/repo1", "| 02 | /c/repo3"]);
}

#[test]
fn add_to_empty_then_list_all() {
    let mut reg = registry(&[]);
    assert!(reg.add("/home/x/proj", true).is_ok());
    assert_eq!(reg.list("all").unwrap(), vec!["| 01 | /home/x/proj"]);
}

#[test]
fn pattern_keeps_line_numbers() {
    let reg = registry(&["/a/rust-lib", "/b/go-svc"]);
    assert_eq!(reg.list("rust").unwrap(), vec!["| 01 | /a/rust-lib"]);
    let reg = registry(&["/b/go-svc", "/a/rust-lib"]);
    assert_eq!(reg.list("rust").unwrap(), vec!["| 02 | /a/rust-lib"]);
}

#[test]
fn pattern_ignores_case() {
    let reg = registry(&["/a/Rust-Lib", "/b/go-svc", "/c/RUST"]);
    assert_eq!(reg.list("rUsT").unwrap(), vec!["| 01 | /a/Rust-Lib", "| 03 | /c/RUST"]);
}

#[test]
fn pattern_without_match_lists_nothing() {
    let reg = registry(&["/a/rust-lib"]);
    assert_eq!(reg.list("python").unwrap(), Vec::<String>::new());
}

#[test]
fn add_without_repo_is_refused() {
    let mut reg = registry(&["/a/repo1"]);
    let r = reg.add("/tmp/empty", false);
    assert_eq!(r, Err(SgrError::NoRepoFound { path: "/tmp/empty".to_string() }));
    assert_eq!(lines(&reg), vec!["/a/repo1"]);
}

#[test]
fn add_inside_registered_dir_collides() {
    let mut reg = registry(&["/a/repo1", "/b"]);
    let r = reg.add("/b/sub/dir", true);
    assert_eq!(
        r,
        Err(SgrError::Collision {
            path: "/b/sub/dir".to_string(),
            entry: "/b".to_string(),
            kind: CollisionKind::InsideEntry,
        })
    );
    assert_eq!(lines(&reg), vec!["/a/repo1", "/b"]);
}

#[test]
fn add_parent_of_registered_dir_collides() {
    let mut reg = registry(&["/a/repo1", "/b/sub/dir"]);
    let r = reg.add("/b", true);
    assert_eq!(
        r,
        Err(SgrError::Collision {
            path: "/b".to_string(),
            entry: "/b/sub/dir".to_string(),
            kind: CollisionKind::ContainsEntry,
        })
    );
    assert_eq!(reg.len(), 2);
}

#[test]
fn add_same_dir_in_other_case_collides() {
    let mut reg = registry(&["  /Home/X/Proj "]);
    let r = reg.add("/home/x/proj", true);
    assert_eq!(
        r,
        Err(SgrError::Collision {
            path: "/home/x/proj".to_string(),
            entry: "  /Home/X/Proj ".to_string(),
            kind: CollisionKind::Exists,
        })
    );
}

#[test]
fn add_names_first_colliding_entry() {
    let mut reg = registry(&["/x", "/b/sub", "/b"]);
    let r = reg.add("/b/sub/deeper", true);
    assert_eq!(
        r,
        Err(SgrError::Collision {
            path: "/b/sub/deeper".to_string(),
            entry: "/b/sub".to_string(),
            kind: CollisionKind::InsideEntry,
        })
    );
}

#[test]
fn add_appends_last() {
    let mut reg = registry(&["/a/repo1", "/b/repo2"]);
    assert_eq!(reg.add("/c/repo3", true), Ok(()));
    assert_eq!(lines(&reg), vec!["/a/repo1", "/b/repo2", "/c/repo3"]);
}

#[test]
fn add_then_remove_path_with_trailing_blank_restores() {
    let mut reg = registry(&["/a/repo1"]);
    assert!(reg.add("/x/foo ", true).is_ok());
    assert_eq!(lines(&reg), vec!["/a/repo1", "/x/foo "]);
    assert!(reg.remove_path("/x/foo ").is_ok());
    assert_eq!(lines(&reg), vec!["/a/repo1"]);
}

#[test]
fn add_then_remove_same_path_restores() {
    let mut reg = registry(&["/a/repo1", "/b/repo2"]);
    assert!(reg.add("/c/repo3", true).is_ok());
    assert!(reg.remove_path("/c/repo3").is_ok());
    assert_eq!(lines(&reg), vec!["/a/repo1", "/b/repo2"]);
}

#[test]
fn remove_path_ignores_ascii_case_and_white_space() {
    let mut reg = registry(&["  /A/Repo1  ", "/b/repo2", "/a/repo1"]);
    assert!(reg.remove_path("/a/REPO1").is_ok());
    assert_eq!(lines(&reg), vec!["/b/repo2"]);
}

#[test]
fn remove_missing_path_is_not_found() {
    let mut reg = registry(&["/a/repo1"]);
    let r = reg.remove_path("/z");
    assert_eq!(r, Err(SgrError::NotFound { path: "/z".to_string() }));
    assert_eq!(lines(&reg), vec!["/a/repo1"]);
}

#[test]
fn remove_line_keeps_order() {
    for k in 1..=4usize {
        let mut reg = registry(&["/1", "/2", "/3", "/4"]);
        assert!(reg.remove_lines(Selector::Line(k)).is_ok());
        let mut want = vec!["/1", "/2", "/3", "/4"];
        want.remove(k - 1);
        assert_eq!(lines(&reg), want);
        let rows = reg.list("").unwrap();
        assert_eq!(rows.len(), 3);
        assert!(rows[0].starts_with("| 01 | "));
        assert!(rows[2].starts_with("| 03 | "));
    }
}

#[test]
fn remove_range_inclusive() {
    let mut reg = registry(&["/1", "/2", "/3", "/4", "/5"]);
    let sel = sgr::remove_selector("2-4").unwrap();
    assert_eq!(sel, Selector::Range(2, 4));
    assert!(reg.remove_lines(sel).is_ok());
    assert_eq!(lines(&reg), vec!["/1", "/5"]);
}

#[test]
fn remove_line_out_of_range() {
    let mut reg = registry(&["/1", "/2", "/3"]);
    assert_eq!(
        reg.remove_lines(Selector::Line(4)),
        Err(SgrError::OutOfRange(RangeFault::AboveMax { max: 3, value: 4 }))
    );
    assert_eq!(
        reg.remove_lines(Selector::Line(0)),
        Err(SgrError::OutOfRange(RangeFault::BelowMin { value: 0 }))
    );
    assert_eq!(reg.len(), 3);
}

#[test]
fn list_line_outside_is_out_of_range() {
    let reg = registry(&["/1", "/2", "/3"]);
    assert_eq!(
        reg.list("0"),
        Err(SgrError::OutOfRange(RangeFault::BelowMin { value: 0 }))
    );
    assert_eq!(
        reg.list("4"),
        Err(SgrError::OutOfRange(RangeFault::AboveMax { max: 3, value: 4 }))
    );
    assert_eq!(reg.list("3").unwrap(), vec!["| 03 | /3"]);
}

#[test]
fn list_bad_ranges_are_refused() {
    let reg = registry(&["/1", "/2", "/3"]);
    assert_eq!(
        reg.list("2-2"),
        Err(SgrError::OutOfRange(RangeFault::SingleLine { start: 2, end: 2 }))
    );
    assert_eq!(
        reg.list("3-1"),
        Err(SgrError::OutOfRange(RangeFault::Reversed { start: 3, end: 1 }))
    );
    assert_eq!(
        reg.list("0-2"),
        Err(SgrError::OutOfRange(RangeFault::BelowMin { value: 0 }))
    );
    assert_eq!(
        reg.list("1-4"),
        Err(SgrError::OutOfRange(RangeFault::AboveMax { max: 3, value: 4 }))
    );
    assert_eq!(reg.list("2-3").unwrap(), vec!["| 02 | /2", "| 03 | /3"]);
}

#[test]
fn list_number_too_large() {
    let reg = registry(&["/1"]);
    assert_eq!(
        reg.list("99999999999999999999999"),
        Err(SgrError::OutOfRange(RangeFault::FarAboveMax { max: 1 }))
    );
    let mut reg = registry(&["/1", "/2"]);
    let sel = sgr::remove_selector("99999999999999999999999").unwrap();
    assert_eq!(
        reg.remove_lines(sel),
        Err(SgrError::OutOfRange(RangeFault::FarAboveMax { max: 2 }))
    );
    assert_eq!(reg.len(), 2);
}

#[test]
fn list_of_empty_registry() {
    let reg = registry(&[]);
    assert_eq!(reg.list("all").unwrap(), Vec::<String>::new());
    assert_eq!(
        reg.list("1"),
        Err(SgrError::OutOfRange(RangeFault::AboveMax { max: 0, value: 1 }))
    );
}

#[test]
fn rows_past_two_digits() {
    assert_eq!(sgr::row(7, "/x"), "| 07 | /x");
    assert_eq!(sgr::row(123, "/y"), "| 123 | /y");
}

#[test]
fn file_text_ends_each_line() {
    let reg = registry(&["/a", "/b"]);
    assert_eq!(reg.to_text(), "/a\n/b\n");
    assert_eq!(registry(&[]).to_text(), "");
}

#[test]
fn listing_frame() {
    assert_eq!(sgr::frame_line().len(), 52);
    assert!(sgr::frame_line().chars().all(|c| c == '-'));
    assert_eq!(sgr::header_row("added: /x"), "| added: /x");
    assert_eq!(sgr::default_header(12, "\"/opt/dirs.txt\""), "(12) \"/opt/dirs.txt\"");
}

#[test]
fn collision_kinds_of_lower_case_forms() {
    assert_eq!(collision_kind("/a/b", "/a/b"), Some(CollisionKind::Exists));
    assert_eq!(collision_kind("/a/b", "/A/b"), Some(CollisionKind::Exists));
    assert_eq!(collision_kind("/a", "/a/b"), Some(CollisionKind::InsideEntry));
    assert_eq!(collision_kind("/a/b", "/a"), Some(CollisionKind::ContainsEntry));
    assert_eq!(collision_kind("/a/b", "/c"), None);
    assert_eq!(collision_kind("", "/c"), Some(CollisionKind::InsideEntry));
}

#[test]
fn rows_with_given_keys() {
    let reg = registry(&["/A/X", "/b/y", "/c/x"]);
    let keys = vec!["/a/x".to_string(), "/b/y".to_string(), "/c/x".to_string()];
    assert_eq!(reg.rows_with(&keys, "x"), vec!["| 01 | /A/X", "| 03 | /c/x"]);
    assert_eq!(reg.rows(2, 3), vec!["| 02 | /b/y", "| 03 | /c/x"]);
    assert_eq!(reg.rows(2, 1), Vec::<String>::new());
}

#[test]
fn remove_path_with_trailing_blank_does_not_match_other_dir() {
    let mut reg = registry(&["/x/foo"]);
    assert_eq!(
        reg.remove_path("/x/foo "),
        Err(SgrError::NotFound { path: "/x/foo ".to_string() })
    );
    assert_eq!(lines(&reg), vec!["/x/foo"]);
}

#[test]
fn add_path_with_trailing_blank_beside_entry_is_inside_it() {
    let mut reg = registry(&["/x/foo"]);
    assert_eq!(
        reg.add("/x/foo ", true),
        Err(SgrError::Collision {
            path: "/x/foo ".to_string(),
            entry: "/x/foo".to_string(),
            kind: CollisionKind::InsideEntry,
        })
    );
}
