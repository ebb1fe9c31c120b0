//! The shared server's log-file format and size cap.

use vstd::prelude::*;

verus! {

/// The log file is emptied before a write once it exceeds this many bytes.
pub const MAX_LOG_FILE_SIZE: u64 = 10485760;

/// A log line: `[<timestamp>] | [<level>]    :   <message>`.
pub open spec fn log_line(timestamp: Seq<char>, level: Seq<char>, message: Seq<char>) -> Seq<char> {
    "["@ + timestamp + "] | ["@ + level + "]    :   "@ + message
}

/// The line written just before a logged panic:
/// `[<timestamp>] | [ERROR]  :   <message>`.
pub open spec fn panic_log_line(timestamp: Seq<char>, message: Seq<char>) -> Seq<char> {
    "["@ + timestamp + "] | [ERROR]  :   "@ + message
}

/// Formats a log line.
pub fn format_log_line(timestamp: &str, level: &str, message: &str) -> (r: String)
    ensures
        r@ == log_line(timestamp@, level@, message@),
{
    let mut out = "[".to_owned();
    out.append(timestamp);
    out.append("] | [");
    out.append(level);
    out.append("]    :   ");
    out.append(message);
    out
}

/// Formats the line written before a logged panic.
pub fn format_panic_log_line(timestamp: &str, message: &str) -> (r: String)
    ensures
        r@ == panic_log_line(timestamp@, message@),
{
    let mut out = "[".to_owned();
    out.append(timestamp);
    out.append("] | [ERROR]  :   ");
    out.append(message);
    out
}

/// Whether a log file of `len` bytes must be emptied before the next write.
pub fn log_file_needs_truncation(len: u64) -> (r: bool)
    ensures
        r == (len > MAX_LOG_FILE_SIZE),
{
    len > MAX_LOG_FILE_SIZE
}

} // verus!
