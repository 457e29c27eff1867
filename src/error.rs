use vstd::prelude::*;

use crate::log::{header_text, log_header, LogLevel};
use crate::text::{decimal, push_decimal};

verus! {

/// How a new directory overlaps an entry of the registry.
#[derive(Clone, Copy, Debug, PartialEq, Eq, Structural)]
pub enum CollisionKind {
    /// The entry is the directory itself.
    Exists,
    /// The new directory lies inside the entry.
    InsideEntry,
    /// The entry lies inside the new directory.
    ContainsEntry,
}

/// Why a number could not be read.
#[derive(Clone, Copy, Debug, PartialEq, Eq, Structural)]
pub enum ParseFault {
    /// There were no digits.
    Empty,
}

/// Why a line number or a line range was refused.
#[derive(Clone, Copy, Debug, PartialEq, Eq, Structural)]
pub enum RangeFault {
    /// Below the first line.
    BelowMin { value: usize },
    /// Past the last line, `max`.
    AboveMax { max: usize, value: usize },
    /// Past the last line, `max`, by a number too large for a `usize`.
    FarAboveMax { max: usize },
    /// A range whose start comes after its end.
    Reversed { start: usize, end: usize },
    /// A range of one line, which is written as a line number instead.
    SingleLine { start: usize, end: usize },
}

/// Everything that can end a command without success.
#[derive(Debug, PartialEq, Eq)]
pub enum SgrError {
    /// The command needs an argument and got none.
    ArgumentMissing { command: String },
    /// The command word is not one of the known commands.
    UnknownCommand { command: String },
    /// The path could not be made absolute and canonical.
    CanonicalizeFailed { path: String, reason: String },
    /// The path exists but is not a directory.
    NotADirectory { path: String },
    /// Neither the directory nor anything below it holds a git repository.
    NoRepoFound { path: String },
    /// The directory overlaps an entry of the registry.
    Collision { path: String, entry: String, kind: CollisionKind },
    /// No entry of the registry is the directory.
    NotFound { path: String },
    /// A line number could not be read.
    ParseFailed(ParseFault),
    /// A line number or range lies outside the registry.
    OutOfRange(RangeFault),
    /// Reading or writing a file failed.
    IoFailure { message: String },
    /// The chooser ended without a choice.
    SelectionCancelled,
}

/// The line shown for a refused line number or range.
pub open spec fn range_fault_text(f: RangeFault) -> Seq<char> {
    match f {
        RangeFault::BelowMin { value } => "min is 1; got "@ + decimal(value as nat),
        RangeFault::AboveMax { max, value } => "max is "@ + decimal(max as nat) + "; got "@
            + decimal(value as nat),
        RangeFault::FarAboveMax { max } => "max is "@ + decimal(max as nat)
            + "; got a number too large to fit in target type"@,
        RangeFault::Reversed { start, end } => "starting range "@ + decimal(start as nat)
            + " is greater than ending range "@ + decimal(end as nat),
        RangeFault::SingleLine { start, end } => "starting range "@ + decimal(start as nat)
            + " is equal to ending range "@ + decimal(end as nat),
    }
}

/// The line shown for a collision.
pub open spec fn collision_text(path: Seq<char>, entry: Seq<char>, kind: CollisionKind) -> Seq<
    char,
> {
    match kind {
        CollisionKind::Exists => "collision: \""@ + path + "\" already exists"@,
        CollisionKind::InsideEntry => "collision: \""@ + path + "\" is a sub dir of \""@ + entry
            + "\""@,
        CollisionKind::ContainsEntry => "collision: \""@ + entry + "\" is a sub dir of \""@ + path
            + "\""@,
    }
}

/// The text after the level tag.
pub open spec fn message_body(e: SgrError) -> Seq<char> {
    match e {
        SgrError::ArgumentMissing { command } => "missing arg for '"@ + command@ + "'"@,
        SgrError::UnknownCommand { command } => "unknown command '"@ + command@ + "'"@,
        SgrError::CanonicalizeFailed { path, reason } => "Failed to canonicalize path "@ + path@
            + ": "@ + reason@,
        SgrError::NotADirectory { path } => "\""@ + path@ + "\" is not a directory"@,
        SgrError::NoRepoFound { path } => "No git repos found in directory '"@ + path@ + "'"@,
        SgrError::Collision { path, entry, kind } => collision_text(path@, entry@, kind),
        SgrError::NotFound { path } => "\""@ + path@ + "\" is not in dirs.txt"@,
        SgrError::ParseFailed(ParseFault::Empty) =>
            "Failed to parse arg: cannot parse integer from empty string"@,
        SgrError::OutOfRange(f) => range_fault_text(f),
        SgrError::IoFailure { message } => message@,
        SgrError::SelectionCancelled => "Did not choose a directory"@,
    }
}

/// The level at which an error is shown; an unknown command is shown untagged.
pub open spec fn message_text(e: SgrError) -> Seq<char> {
    match e {
        SgrError::UnknownCommand { .. } => message_body(e),
        SgrError::SelectionCancelled => header_text(LogLevel::Warn) + " "@ + message_body(e),
        _ => header_text(LogLevel::Error) + " "@ + message_body(e),
    }
}

fn push_range_fault(s: &mut String, f: RangeFault)
    ensures
        final(s)@ == old(s)@ + range_fault_text(f),
{
    match f {
        RangeFault::BelowMin { value } => {
            s.append("min is 1; got ");
            push_decimal(s, value);
        },
        RangeFault::AboveMax { max, value } => {
            s.append("max is ");
            push_decimal(s, max);
            s.append("; got ");
            push_decimal(s, value);
        },
        RangeFault::FarAboveMax { max } => {
            s.append("max is ");
            push_decimal(s, max);
            s.append("; got a number too large to fit in target type");
        },
        RangeFault::Reversed { start, end } => {
            s.append("starting range ");
            push_decimal(s, start);
            s.append(" is greater than ending range ");
            push_decimal(s, end);
        },
        RangeFault::SingleLine { start, end } => {
            s.append("starting range ");
            push_decimal(s, start);
            s.append(" is equal to ending range ");
            push_decimal(s, end);
        },
    }
    assert(s@ =~= old(s)@ + range_fault_text(f));
}

impl SgrError {
    /// The line shown to the user.
    pub fn message(&self) -> (r: String)
        ensures
            r@ == message_text(*self),
    {
        let mut s = String::new();
        match self {
            SgrError::UnknownCommand { .. } => {},
            SgrError::SelectionCancelled => {
                s.append(log_header(LogLevel::Warn));
                s.append(" ");
            },
            _ => {
                s.append(log_header(LogLevel::Error));
                s.append(" ");
            },
        }
        match self {
            SgrError::ArgumentMissing { command } => {
                s.append("missing arg for '");
                s.append(command.as_str());
                s.append("'");
            },
            SgrError::UnknownCommand { command } => {
                s.append("unknown command '");
                s.append(command.as_str());
                s.append("'");
            },
            SgrError::CanonicalizeFailed { path, reason } => {
                s.append("Failed to canonicalize path ");
                s.append(path.as_str());
                s.append(": ");
                s.append(reason.as_str());
            },
            SgrError::NotADirectory { path } => {
                s.append("\"");
                s.append(path.as_str());
                s.append("\" is not a directory");
            },
            SgrError::NoRepoFound { path } => {
                s.append("No git repos found in directory '");
                s.append(path.as_str());
                s.append("'");
            },
            SgrError::Collision { path, entry, kind } => match kind {
                CollisionKind::Exists => {
                    s.append("collision: \"");
                    s.append(path.as_str());
                    s.append("\" already exists");
                },
                CollisionKind::InsideEntry => {
                    s.append("collision: \"");
                    s.append(path.as_str());
                    s.append("\" is a sub dir of \"");
                    s.append(entry.as_str());
                    s.append("\"");
                },
                CollisionKind::ContainsEntry => {
                    s.append("collision: \"");
                    s.append(entry.as_str());
                    s.append("\" is a sub dir of \"");
                    s.append(path.as_str());
                    s.append("\"");
                },
            },
            SgrError::NotFound { path } => {
                s.append("\"");
                s.append(path.as_str());
                s.append("\" is not in dirs.txt");
            },
            SgrError::ParseFailed(ParseFault::Empty) => {
                s.append("Failed to parse arg: cannot parse integer from empty string");
            },
            SgrError::OutOfRange(f) => {
                push_range_fault(&mut s, *f);
            },
            SgrError::IoFailure { message } => {
                s.append(message.as_str());
            },
            SgrError::SelectionCancelled => {
                s.append("Did not choose a directory");
            },
        }
        assert(s@ =~= message_text(*self));
        s
    }
}

} // verus!
