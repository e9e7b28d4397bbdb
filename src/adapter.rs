//! Turning one record of the logging facade into an entry for the recorder.
use crate::entry::{option_view, truncated, LogEntry, Level, Timestamp, truncate_str};
use crate::entry::{
    LOG_ENTRY_MAX_FILENAME_LENGTH, LOG_ENTRY_MAX_HOSTNAME_LENGTH, LOG_ENTRY_MAX_MESSAGE_LENGTH,
    LOG_ENTRY_MAX_MODULE_LENGTH,
};
use crate::filter::option_str_view;
use vstd::prelude::*;

verus! {

/// `s`, or the empty string when there is none.
pub open spec fn or_empty(s: Option<Seq<char>>) -> Seq<char> {
    match s {
        Some(v) => v,
        None => Seq::empty(),
    }
}

/// Builds the entry for a record taken at `timestamp` on `hostname`.  A
/// missing module or file is stored as an empty one, and every bounded field
/// is cut to its maximum length.
pub fn make_entry(
    timestamp: Timestamp,
    hostname: &str,
    level: Level,
    module: Option<&str>,
    filename: Option<&str>,
    line: Option<u32>,
    message: &str,
) -> (r: LogEntry)
    ensures
        r.timestamp == timestamp,
        r.level == level,
        r.line == line,
        r.hostname@ == truncated(hostname@, LOG_ENTRY_MAX_HOSTNAME_LENGTH as nat),
        option_view(r.module) == Some(
            truncated(or_empty(option_str_view(module)), LOG_ENTRY_MAX_MODULE_LENGTH as nat),
        ),
        option_view(r.filename) == Some(
            truncated(or_empty(option_str_view(filename)), LOG_ENTRY_MAX_FILENAME_LENGTH as nat),
        ),
        r.message@ == truncated(message@, LOG_ENTRY_MAX_MESSAGE_LENGTH as nat),
        r.within_limits(),
{
    proof {
        reveal_strlit("");
    }
    let m = match module {
        Some(m) => m,
        None => "",
    };
    let f = match filename {
        Some(f) => f,
        None => "",
    };
    LogEntry {
        timestamp,
        hostname: truncate_str(hostname, LOG_ENTRY_MAX_HOSTNAME_LENGTH),
        level,
        module: Some(truncate_str(m, LOG_ENTRY_MAX_MODULE_LENGTH)),
        filename: Some(truncate_str(f, LOG_ENTRY_MAX_FILENAME_LENGTH)),
        line,
        message: truncate_str(message, LOG_ENTRY_MAX_MESSAGE_LENGTH),
    }
}

} // verus!
