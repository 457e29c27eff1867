use sgr::{CollisionKind, LogLevel, ParseFault, RangeFault, SgrError, StringExt};

#[test]
fn log_headers() {
    assert_eq!(sgr::log_header(LogLevel::Info), "[INFO]");
    assert_eq!(sgr::log_header(LogLevel::Error), "\x1b[31m[ERROR]\x1b[0m");
    assert_eq!(sgr::log_header(LogLevel::Warn), "\x1b[33m[WARN]\x1b[0m");
    assert_eq!(sgr::format_log(LogLevel::Info, "hi".to_string()), "[INFO] hi");
}

#[test]
fn padding() {
    let s = "ab".to_string();
    assert_eq!(s.pad_right(5), "ab   ");
    assert_eq!(s.pad_left(5), "   ab");
    assert_eq!(s.pad_mid(7), "  ab   ");
    assert_eq!(s.pad_right(1), "ab");
    assert_eq!(s.fill_right(2), "ab  ");
    assert_eq!(s.fill_left(3), "   ab");
    assert_eq!("add".to_string().pad_right(15).fill_left(2), "  add            ");
}

#[test]
fn padding_counts_bytes() {
    assert_eq!("é".to_string().pad_right(4), "é  ");
}

#[test]
fn styling() {
    assert_eq!("hi".to_string().bold(), "\x1b[1mhi\x1b[0m");
    assert_eq!("  hi there ".to_string().underline(), "  \x1b[4mhi there\x1b[0m ");
    assert_eq!("x".to_string().italic(), "\x1b[3mx\x1b[0m");
    assert_eq!("   ".to_string().bold(), "\x1b[1m   \x1b[0m");
    assert_eq!("".to_string().bold(), "\x1b[1m\x1b[0m");
    assert_eq!("é ".to_string().bold(), "\x1b[1mé\x1b[0m ");
}

fn err(msg: &str) -> String {
    format!("\x1b[31m[ERROR]\x1b[0m {}", msg)
}

#[test]
fn messages() {
    assert_eq!(
        SgrError::ArgumentMissing { command: "add".to_string() }.message(),
        err("missing arg for 'add'")
    );
    assert_eq!(
        SgrError::UnknownCommand { command: "x".to_string() }.message(),
        "unknown command 'x'"
    );
    assert_eq!(
        SgrError::NoRepoFound { path: "/t".to_string() }.message(),
        err("No git repos found in directory '/t'")
    );
    assert_eq!(
        SgrError::NotADirectory { path: "/f".to_string() }.message(),
        err("\"/f\" is not a directory")
    );
    assert_eq!(
        SgrError::CanonicalizeFailed { path: "/q".to_string(), reason: "gone".to_string() }
            .message(),
        err("Failed to canonicalize path /q: gone")
    );
    assert_eq!(
        SgrError::Collision {
            path: "/a".to_string(),
            entry: "/A".to_string(),
            kind: CollisionKind::Exists
        }
        .message(),
        err("collision: \"/a\" already exists")
    );
    assert_eq!(
        SgrError::Collision {
            path: "/a/b".to_string(),
            entry: "/a".to_string(),
            kind: CollisionKind::InsideEntry
        }
        .message(),
        err("collision: \"/a/b\" is a sub dir of \"/a\"")
    );
    assert_eq!(
        SgrError::Collision {
            path: "/a".to_string(),
            entry: "/a/b".to_string(),
            kind: CollisionKind::ContainsEntry
        }
        .message(),
        err("collision: \"/a/b\" is a sub dir of \"/a\"")
    );
    assert_eq!(
        SgrError::NotFound { path: "/z".to_string() }.message(),
        err("\"/z\" is not in dirs.txt")
    );
    assert_eq!(
        SgrError::ParseFailed(ParseFault::Empty).message(),
        err("Failed to parse arg: cannot parse integer from empty string")
    );
    assert_eq!(
        SgrError::OutOfRange(RangeFault::FarAboveMax { max: 3 }).message(),
        err("max is 3; got a number too large to fit in target type")
    );
    assert_eq!(
        SgrError::OutOfRange(RangeFault::BelowMin { value: 0 }).message(),
        err("min is 1; got 0")
    );
    assert_eq!(
        SgrError::OutOfRange(RangeFault::AboveMax { max: 3, value: 40 }).message(),
        err("max is 3; got 40")
    );
    assert_eq!(
        SgrError::OutOfRange(RangeFault::Reversed { start: 3, end: 1 }).message(),
        err("starting range 3 is greater than ending range 1")
    );
    assert_eq!(
        SgrError::OutOfRange(RangeFault::SingleLine { start: 2, end: 2 }).message(),
        err("starting range 2 is equal to ending range 2")
    );
    assert_eq!(
        SgrError::IoFailure { message: "disk".to_string() }.message(),
        err("disk")
    );
    assert_eq!(
        SgrError::SelectionCancelled.message(),
        "\x1b[33m[WARN]\x1b[0m Did not choose a directory"
    );
}
