use vstd::prelude::*;

verus! {

/// Severity of a console message.
pub enum LogLevel {
    Info,
    Error,
    Warn,
}

pub open spec fn header_text(level: LogLevel) -> Seq<char> {
    match level {
        LogLevel::Info => "[INFO]"@,
        LogLevel::Error => "\x1b[31m[ERROR]\x1b[0m"@,
        LogLevel::Warn => "\x1b[33m[WARN]\x1b[0m"@,
    }
}

fn info_header() -> (r: &'static str)
    ensures
        r@ == header_text(LogLevel::Info),
{
    "[INFO]"
}

fn error_header() -> (r: &'static str)
    ensures
        r@ == header_text(LogLevel::Error),
{
    "\x1b[31m[ERROR]\x1b[0m"
}

fn warn_header() -> (r: &'static str)
    ensures
        r@ == header_text(LogLevel::Warn),
{
    "\x1b[33m[WARN]\x1b[0m"
}

/// The tag that opens a message of the given level.
pub fn log_header(level: LogLevel) -> (r: &'static str)
    ensures
        r@ == header_text(level),
{
    match level {
        LogLevel::Info => info_header(),
        LogLevel::Error => error_header(),
        LogLevel::Warn => warn_header(),
    }
}

/// A message preceded by the tag of its level and one space.
pub fn format_log(level: LogLevel, msg: String) -> (r: String)
    ensures
        r@ == header_text(level) + " "@ + msg@,
{
    let mut out = String::from_str(log_header(level));
    out.append(" ");
    out.append(msg.as_str());
    out
}

} // verus!
